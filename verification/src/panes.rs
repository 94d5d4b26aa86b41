//! The panes of each mode's panel and the tabs that switch between them.

use vstd::prelude::*;

use crate::mode::{Mode, Traits};
use crate::text::{dec, decimal, same};

verus! {

/// The waterfall's tab. Always last, and every mode has one.
pub const TAB_WFALL: &'static str = "WFALL";

/// The panes that a mode's panel splits into, in tab order. A panel of one
/// column names it all the same, so that the waterfall has something to sit
/// beside.
pub open spec fn panes_of(mode: Mode) -> Seq<Seq<char>> {
    match mode {
        Mode::Ft8 | Mode::Ft4 | Mode::Ft2 => seq!["DECODES"@, "QSO"@],
        Mode::Js8 => seq!["HEARD"@, "CHAT"@],
        Mode::Wspr => seq!["SPOTS"@, "MAP"@, "STATUS"@],
        Mode::Fsq => seq!["HEARD"@, "TRAFFIC"@],
        Mode::Sstv | Mode::SstvFm | Mode::Rifp => seq!["RECEIVE"@, "SEND"@],
        Mode::Packet | Mode::PacketHf => seq!["MONITOR"@, "TERMINAL"@],
        Mode::Aprs => seq!["STATIONS"@, "MESSAGES"@, "MAP"@],
        Mode::Adsb => seq!["AIRCRAFT"@, "MAP"@],
        Mode::Wefax => seq!["CHART"@, "SAVED"@],
        Mode::Navtex => seq!["MESSAGES"@, "READING"@],
        Mode::RfPaint => seq!["TEXT"@, "IMAGE"@],
        _ => seq!["PANEL"@],
    }
}

/// The texts of a list of labels.
pub open spec fn label_texts(v: Seq<&'static str>) -> Seq<Seq<char>> {
    Seq::new(v.len(), |i: int| v[i]@)
}

/// The panes of a mode's panel.
pub fn panel_panes(mode: Mode) -> (v: Vec<&'static str>)
    ensures
        label_texts(v@) == panes_of(mode),
{
    let v: Vec<&'static str> = match mode {
        Mode::Ft8 | Mode::Ft4 | Mode::Ft2 => vec!["DECODES", "QSO"],
        Mode::Js8 => vec!["HEARD", "CHAT"],
        Mode::Wspr => vec!["SPOTS", "MAP", "STATUS"],
        Mode::Fsq => vec!["HEARD", "TRAFFIC"],
        Mode::Sstv | Mode::SstvFm | Mode::Rifp => vec!["RECEIVE", "SEND"],
        Mode::Packet | Mode::PacketHf => vec!["MONITOR", "TERMINAL"],
        Mode::Aprs => vec!["STATIONS", "MESSAGES", "MAP"],
        Mode::Adsb => vec!["AIRCRAFT", "MAP"],
        Mode::Wefax => vec!["CHART", "SAVED"],
        Mode::Navtex => vec!["MESSAGES", "READING"],
        Mode::RfPaint => vec!["TEXT", "IMAGE"],
        _ => vec!["PANEL"],
    };
    assert(label_texts(v@) =~= panes_of(mode));
    v
}

/// The full tab row: the mode's panes, then the waterfall.
pub fn panel_tabs(mode: Mode) -> (v: Vec<&'static str>)
    ensures
        label_texts(v@) == panes_of(mode).push(TAB_WFALL@),
{
    let mut v = panel_panes(mode);
    v.push(TAB_WFALL);
    assert(label_texts(v@) =~= panes_of(mode).push(TAB_WFALL@));
    v
}

/// The place of the first pane with this name; zero where none has it.
pub open spec fn place_of(panes: Seq<Seq<char>>, name: Seq<char>) -> int {
    if panes.contains(name) {
        panes.index_of_first(name)->0
    } else {
        0
    }
}

/// Index of the pane named `name`, for the panels that switch to one of their
/// own; the first pane where the mode has no such one.
pub fn pane_index(mode: Mode, name: &str) -> (r: usize)
    ensures
        r == place_of(panes_of(mode), name@),
        r < panes_of(mode).len(),
{
    let v = panel_panes(mode);
    let ghost p = panes_of(mode);
    proof {
        law_every_mode_has_a_pane(mode);
    }
    let mut i: usize = 0;
    while i < v.len()
        invariant
            i <= v@.len(),
            p == panes_of(mode),
            p.len() > 0,
            label_texts(v@) == p,
            forall|j: int| 0 <= j < i ==> p[j] != name@,
        decreases v@.len() - i,
    {
        assert(p[i as int] == v@[i as int]@);
        if same(v[i], name) {
            proof {
                p.index_of_first_ensures(name@);
                let k = p.index_of_first(name@)->0;
                assert(k == i);
            }
            return i;
        }
        i = i + 1;
    }
    0
}

/// Every mode has at least one pane and at most three, and none of them is
/// named like the waterfall's tab.
pub proof fn law_every_mode_has_a_pane(mode: Mode)
    ensures
        1 <= panes_of(mode).len() <= 3,
        !panes_of(mode).contains(TAB_WFALL@),
{
    reveal_strlit("WFALL");
    reveal_strlit("DECODES");
    reveal_strlit("QSO");
    reveal_strlit("HEARD");
    reveal_strlit("CHAT");
    reveal_strlit("SPOTS");
    reveal_strlit("MAP");
    reveal_strlit("STATUS");
    reveal_strlit("TRAFFIC");
    reveal_strlit("RECEIVE");
    reveal_strlit("SEND");
    reveal_strlit("MONITOR");
    reveal_strlit("TERMINAL");
    reveal_strlit("STATIONS");
    reveal_strlit("MESSAGES");
    reveal_strlit("AIRCRAFT");
    reveal_strlit("CHART");
    reveal_strlit("SAVED");
    reveal_strlit("READING");
    reveal_strlit("TEXT");
    reveal_strlit("IMAGE");
    reveal_strlit("PANEL");
    let p = panes_of(mode);
    assert forall|i: int| 0 <= i < p.len() implies p[i] != TAB_WFALL@ by {
        assert(TAB_WFALL@[0] == 'W');
        assert(p[i][0] != 'W');
    }
}

/// The pane showing this frame: the stored index, clamped to what the mode
/// has. The index one past the panes is the waterfall.
pub open spec fn pane_shown(stored: usize, mode: Mode) -> int {
    if stored <= panes_of(mode).len() {
        stored as int
    } else {
        panes_of(mode).len() as int
    }
}

/// The pane showing this frame, clamped to what the mode has.
pub fn digi_pane(stored: usize, mode: Mode) -> (r: usize)
    ensures
        r == pane_shown(stored, mode),
{
    let n: usize = panel_panes(mode).len();
    if stored <= n {
        stored
    } else {
        n
    }
}

/// A stored index is valid in whatever mode is in use now: it selects one of
/// that mode's panes or its waterfall. Where it was one of those already it
/// stays as it was.
pub proof fn law_stored_pane_is_valid(stored: usize, mode: Mode)
    ensures
        0 <= pane_shown(stored, mode) <= panes_of(mode).len(),
        stored <= panes_of(mode).len() ==> pane_shown(stored, mode) == stored,
{
}

/// Which pane a panel draws, or `None` where it draws them all: everywhere but
/// on a phone, and on a phone while the waterfall is up.
pub fn phone_pane(phone: bool, stored: usize, mode: Mode) -> (r: Option<usize>)
    ensures
        r == if phone && pane_shown(stored, mode) < panes_of(mode).len() {
            Some(pane_shown(stored, mode) as usize)
        } else {
            None
        },
{
    if !phone {
        return None;
    }
    let n: usize = panel_panes(mode).len();
    let pane: usize = digi_pane(stored, mode);
    if pane < n {
        Some(pane)
    } else {
        None
    }
}

/// What is on screen: the panadapter, the mode's panel, or both.
#[derive(Clone, Copy, PartialEq, Eq, Structural, Debug)]
pub struct Screen {
    pub waterfall: bool,
    pub panel: bool,
}

/// What a digital mode shows. A phone shows one of the two; any other layout
/// shows the panel, and the panadapter above it unless both of its layers are
/// switched off.
pub open spec fn digital_of(phone: bool, layers: bool, stored: usize, mode: Mode) -> Screen {
    Screen {
        waterfall: layers && (!phone || pane_shown(stored, mode) == panes_of(mode).len()),
        panel: !phone || pane_shown(stored, mode) < panes_of(mode).len(),
    }
}

/// What a digital mode shows.
pub fn digital_screen(phone: bool, layers: bool, stored: usize, mode: Mode) -> (s: Screen)
    ensures
        s == digital_of(phone, layers, stored, mode),
{
    let on_waterfall = phone && digi_pane(stored, mode) == panel_panes(mode).len();
    Screen { waterfall: (!phone || on_waterfall) && layers, panel: !phone || !on_waterfall }
}

/// What a mode without a digital panel shows. CW has a panel of its own under
/// the panadapter; the others have none.
pub fn analog_screen(phone: bool, layers: bool, stored: usize, mode: Mode) -> (s: Screen)
    ensures
        mode != Mode::Cw ==> s == (Screen { waterfall: layers, panel: false }),
        mode == Mode::Cw && phone ==> s.panel == (stored == 0) && s.waterfall == (stored != 0),
        mode == Mode::Cw && !phone ==> s == (Screen { waterfall: layers, panel: true }),
{
    if mode != Mode::Cw {
        Screen { waterfall: layers, panel: false }
    } else if phone {
        let on_waterfall = digi_pane(stored, Mode::Cw) == panel_panes(Mode::Cw).len();
        Screen { waterfall: on_waterfall, panel: !on_waterfall }
    } else {
        Screen { waterfall: layers, panel: true }
    }
}

/// A phone in a digital mode whose panadapter layers are on shows exactly one
/// of panadapter and panel.
pub proof fn law_phone_shows_one(stored: usize, mode: Mode)
    ensures
        digital_of(true, true, stored, mode).waterfall != digital_of(true, true, stored, mode).panel,
{
}

/// The operating panels.
#[derive(Clone, Copy, PartialEq, Eq, Structural, Debug)]
pub enum Panel {
    Rade,
    Wefax,
    Navtex,
    Image,
    RfPaint,
    Adsb,
    Aprs,
    Packet,
    Fsq,
    Hell,
    Text,
    Js8,
    Wspr,
    Digi,
}

/// The panel that a mode is worked in.
pub open spec fn panel_of(mode: Mode, t: Traits) -> Panel {
    if mode == Mode::Rade {
        Panel::Rade
    } else if mode == Mode::Wefax {
        Panel::Wefax
    } else if mode == Mode::Navtex {
        Panel::Navtex
    } else if t.image {
        Panel::Image
    } else if mode == Mode::RfPaint {
        Panel::RfPaint
    } else if mode == Mode::Adsb {
        Panel::Adsb
    } else if mode == Mode::Aprs {
        Panel::Aprs
    } else if mode == Mode::Packet || mode == Mode::PacketHf {
        Panel::Packet
    } else if mode == Mode::Fsq {
        Panel::Fsq
    } else if mode == Mode::Hell {
        Panel::Hell
    } else if t.text_modem {
        Panel::Text
    } else if mode == Mode::Js8 {
        Panel::Js8
    } else if mode == Mode::Wspr {
        Panel::Wspr
    } else {
        Panel::Digi
    }
}

/// The panel that a mode is worked in.
pub fn panel_for(mode: Mode, t: Traits) -> (p: Panel)
    ensures
        p == panel_of(mode, t),
{
    if mode == Mode::Rade {
        Panel::Rade
    } else if mode == Mode::Wefax {
        Panel::Wefax
    } else if mode == Mode::Navtex {
        Panel::Navtex
    } else if t.image {
        Panel::Image
    } else if mode == Mode::RfPaint {
        Panel::RfPaint
    } else if mode == Mode::Adsb {
        Panel::Adsb
    } else if mode == Mode::Aprs {
        Panel::Aprs
    } else if mode == Mode::Packet || mode == Mode::PacketHf {
        Panel::Packet
    } else if mode == Mode::Fsq {
        Panel::Fsq
    } else if mode == Mode::Hell {
        Panel::Hell
    } else if t.text_modem {
        Panel::Text
    } else if mode == Mode::Js8 {
        Panel::Js8
    } else if mode == Mode::Wspr {
        Panel::Wspr
    } else {
        Panel::Digi
    }
}

/// The count beside the tabs, in the modes whose panel is the decode list.
pub fn rx_count(mode: Mode, decodes: usize) -> (t: Option<String>)
    ensures
        t is Some == (mode == Mode::Ft8 || mode == Mode::Ft4 || mode == Mode::Ft2),
        t matches Some(s) ==> s@ == dec(decodes as nat) + " rx"@,
{
    if matches!(mode, Mode::Ft8 | Mode::Ft4 | Mode::Ft2) {
        let mut t = decimal(decodes as u64);
        t.append(" rx");
        Some(t)
    } else {
        None
    }
}

/// What a control says that is dead because the radio cannot transmit.
pub const RX_ONLY_HINT: &'static str =
    "This radio can only receive — it has no transmitter to key.";

/// The hint of a transmit control: none on a radio that can transmit.
pub fn rx_only_hint(tx_ok: bool) -> (t: Option<&'static str>)
    ensures
        t is Some == !tx_ok,
        t matches Some(s) ==> s@ == RX_ONLY_HINT@,
{
    if tx_ok {
        None
    } else {
        Some(RX_ONLY_HINT)
    }
}

proof fn lemma_panes_differ(mode: Mode)
    ensures
        panes_of(mode).no_duplicates(),
{
    reveal_strlit("DECODES");
    reveal_strlit("QSO");
    reveal_strlit("HEARD");
    reveal_strlit("CHAT");
    reveal_strlit("SPOTS");
    reveal_strlit("MAP");
    reveal_strlit("STATUS");
    reveal_strlit("TRAFFIC");
    reveal_strlit("RECEIVE");
    reveal_strlit("SEND");
    reveal_strlit("MONITOR");
    reveal_strlit("TERMINAL");
    reveal_strlit("STATIONS");
    reveal_strlit("MESSAGES");
    reveal_strlit("AIRCRAFT");
    reveal_strlit("CHART");
    reveal_strlit("SAVED");
    reveal_strlit("READING");
    reveal_strlit("TEXT");
    reveal_strlit("IMAGE");
    reveal_strlit("PANEL");
    let p = panes_of(mode);
    assert forall|i: int, j: int| 0 <= i < p.len() && 0 <= j < p.len() && i != j implies p[i]
        != p[j] by {
        assert(p[i].len() != p[j].len() || p[i][0] != p[j][0] || p[i][1] != p[j][1]);
    }
}

/// Each pane is found by its own name, and a name that the mode has no pane of
/// leads to the first.
pub proof fn law_a_pane_is_found_by_its_name(mode: Mode, i: int, name: Seq<char>)
    requires
        0 <= i < panes_of(mode).len(),
    ensures
        place_of(panes_of(mode), panes_of(mode)[i]) == i,
        !panes_of(mode).contains(name) ==> place_of(panes_of(mode), name) == 0,
        panes_of(mode).contains(name) ==> panes_of(mode)[place_of(panes_of(mode), name)] == name,
        0 <= place_of(panes_of(mode), name) < panes_of(mode).len(),
{
    lemma_panes_differ(mode);
    let p = panes_of(mode);
    p.index_of_first_ensures(p[i]);
    p.index_of_first_ensures(name);
}

/// What each mode's panel splits into: what is heard first, what is done about it
/// behind.
pub proof fn law_the_panes_of_each_mode(mode: Mode)
    ensures
        ({
            let p = panes_of(mode);
            let slotted = mode == Mode::Ft8 || mode == Mode::Ft4 || mode == Mode::Ft2;
            let image = mode == Mode::Sstv || mode == Mode::SstvFm || mode == Mode::Rifp;
            let packet = mode == Mode::Packet || mode == Mode::PacketHf;
            &&& slotted ==> p.len() == 2 && p[0] == "DECODES"@ && p[1] == "QSO"@
            &&& mode == Mode::Js8 ==> p.len() == 2 && p[0] == "HEARD"@ && p[1] == "CHAT"@
            &&& mode == Mode::Wspr ==> p.len() == 3 && p[0] == "SPOTS"@ && p[1] == "MAP"@ && p[2]
                == "STATUS"@
            &&& mode == Mode::Fsq ==> p.len() == 2 && p[0] == "HEARD"@ && p[1] == "TRAFFIC"@
            &&& image ==> p.len() == 2 && p[0] == "RECEIVE"@ && p[1] == "SEND"@
            &&& packet ==> p.len() == 2 && p[0] == "MONITOR"@ && p[1] == "TERMINAL"@
            &&& mode == Mode::Aprs ==> p.len() == 3 && p[0] == "STATIONS"@ && p[1] == "MESSAGES"@
                && p[2] == "MAP"@
            &&& mode == Mode::Adsb ==> p.len() == 2 && p[0] == "AIRCRAFT"@ && p[1] == "MAP"@
            &&& mode == Mode::Wefax ==> p.len() == 2 && p[0] == "CHART"@ && p[1] == "SAVED"@
            &&& mode == Mode::Navtex ==> p.len() == 2 && p[0] == "MESSAGES"@ && p[1] == "READING"@
            &&& mode == Mode::RfPaint ==> p.len() == 2 && p[0] == "TEXT"@ && p[1] == "IMAGE"@
            &&& p.len() == 1 ==> p[0] == "PANEL"@
            &&& p.len() == 1 <==> !slotted && !image && !packet && mode != Mode::Js8 && mode
                != Mode::Wspr && mode != Mode::Fsq && mode != Mode::Aprs && mode != Mode::Adsb
                && mode != Mode::Wefax && mode != Mode::Navtex && mode != Mode::RfPaint
        }),
{
}

/// An index past the panes is the waterfall.
pub proof fn law_past_the_panes_is_the_waterfall(stored: usize, mode: Mode)
    ensures
        stored >= panes_of(mode).len() ==> pane_shown(stored, mode) == panes_of(mode).len(),
        digital_of(true, true, stored, mode).waterfall <==> stored >= panes_of(mode).len(),
        digital_of(true, true, stored, mode).panel <==> stored < panes_of(mode).len(),
        digital_of(false, true, stored, mode).waterfall && digital_of(
            false,
            true,
            stored,
            mode,
        ).panel,
        !digital_of(false, false, stored, mode).waterfall && digital_of(
            false,
            false,
            stored,
            mode,
        ).panel,
        !digital_of(true, false, stored, mode).waterfall,
        digital_of(true, false, stored, mode).panel <==> stored < panes_of(mode).len(),
{
}

/// Each mode has one panel: those named after a mode serve that mode, the picture
/// panel every mode that sends pictures, the text panel every other keyboard mode,
/// and the decode list the rest.
pub proof fn law_each_mode_has_its_panel(mode: Mode, t: Traits)
    ensures
        panel_of(mode, t) == Panel::Rade <==> mode == Mode::Rade,
        panel_of(mode, t) == Panel::Wefax <==> mode == Mode::Wefax,
        panel_of(mode, t) == Panel::Navtex <==> mode == Mode::Navtex,
        t.image && mode != Mode::Rade && mode != Mode::Wefax && mode != Mode::Navtex
            <==> panel_of(mode, t) == Panel::Image,
        !t.image ==> {
            &&& panel_of(mode, t) == Panel::RfPaint <==> mode == Mode::RfPaint
            &&& panel_of(mode, t) == Panel::Adsb <==> mode == Mode::Adsb
            &&& panel_of(mode, t) == Panel::Aprs <==> mode == Mode::Aprs
            &&& panel_of(mode, t) == Panel::Packet <==> mode == Mode::Packet || mode
                == Mode::PacketHf
            &&& panel_of(mode, t) == Panel::Fsq <==> mode == Mode::Fsq
            &&& panel_of(mode, t) == Panel::Hell <==> mode == Mode::Hell
        },
        !t.image && !t.text_modem ==> {
            &&& panel_of(mode, t) == Panel::Js8 <==> mode == Mode::Js8
            &&& panel_of(mode, t) == Panel::Wspr <==> mode == Mode::Wspr
            &&& mode == Mode::Ft8 || mode == Mode::Ft4 || mode == Mode::Ft2 ==> panel_of(mode, t)
                == Panel::Digi
        },
        panel_of(mode, t) == Panel::Text ==> t.text_modem && !t.image,
        panel_of(mode, t) == Panel::Digi ==> !t.text_modem && !t.image,
        (mode == Mode::Rtty || mode == Mode::Olivia || mode == Mode::Thor) && t.text_modem
            && !t.image ==> panel_of(mode, t) == Panel::Text,
{
}

} // verus!
