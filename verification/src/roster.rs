//! The radios of a session and what their tabs show.

use vstd::prelude::*;

use crate::text::{
    cat, chars_of, dec, decimal, parse_unsigned, parsed, same, stands_at, text_of, to_uppercase,
    uppercase,
};

verus! {

/// One radio of the roster: what a tab chip shows, wherever it is drawn.
#[derive(Debug)]
pub struct RadioChip {
    /// The tab's own number.
    pub id: u32,
    /// The station this radio is on; empty for this machine's own.
    pub station: String,
    /// The number that station knows the radio by.
    pub station_id: u32,
    /// The operator's name, empty until they give one.
    pub name: String,
    /// The name it carries while `name` is empty.
    pub default_name: String,
    pub tx_on: bool,
    pub error: bool,
    pub muted: bool,
    pub focused: bool,
    /// The tab of the radio that has borrowed this one as its panadapter.
    pub attached_to: Option<u32>,
    pub enabled: bool,
    /// Whether the power switch is here.
    pub switchable: bool,
    pub roster_editable: bool,
    pub first_of_station: bool,
}

impl RadioChip {
    /// The text that [`RadioChip::display_name`] returns.
    pub open spec fn shown_name(&self) -> Seq<char> {
        if self.name@.len() == 0 {
            self.default_name@
        } else {
            self.name@
        }
    }

    /// What a tab chip shows: the operator's name, else the derived default.
    pub fn display_name(&self) -> (r: &str)
        ensures
            r@ == self.shown_name(),
    {
        if self.name.as_str().is_empty() {
            self.default_name.as_str()
        } else {
            self.name.as_str()
        }
    }
}

/// True when `i` is the first chip with this id.
pub open spec fn first_chip(roster: Seq<RadioChip>, id: u32, i: int) -> bool {
    0 <= i < roster.len() && roster[i].id == id && forall|j: int|
        0 <= j < i ==> (#[trigger] roster[j]).id != id
}

/// True when no chip has this id.
pub open spec fn no_chip(roster: Seq<RadioChip>, id: u32) -> bool {
    forall|j: int| 0 <= j < roster.len() ==> (#[trigger] roster[j]).id != id
}

fn find_chip(roster: &[RadioChip], id: u32) -> (r: Option<usize>)
    ensures
        match r {
            Some(i) => first_chip(roster@, id, i as int),
            None => no_chip(roster@, id),
        },
{
    let mut i: usize = 0;
    while i < roster.len()
        invariant
            i <= roster@.len(),
            forall|j: int| 0 <= j < i ==> (#[trigger] roster@[j]).id != id,
        decreases roster@.len() - i,
    {
        if roster[i].id == id {
            return Some(i);
        }
        i = i + 1;
    }
    None
}

/// What to call radio `id` given the roster, falling back to its number for a
/// radio that is not in it.
pub fn radio_name(roster: &[RadioChip], id: u32) -> (r: String)
    requires
        id < u32::MAX || !no_chip(roster@, id),
    ensures
        no_chip(roster@, id) ==> r@ == "radio "@ + dec((id + 1) as nat),
        forall|i: int| #[trigger] first_chip(roster@, id, i) ==> r@ == roster@[i].shown_name(),
{
    match find_chip(roster, id) {
        Some(i) => {
            assert forall|k: int| #[trigger] first_chip(roster@, id, k) implies k == i by {
                if k < i {
                    assert(roster@[k].id != id);
                }
                if i < k {
                    assert(roster@[i as int].id != id);
                }
            }
            roster[i].display_name().to_owned()
        },
        None => cat("radio ", decimal((id + 1) as u64).as_str()),
    }
}

/// The radio that has borrowed radio `id`, as the roster has it.
pub fn lent_to(roster: &[RadioChip], id: u32) -> (r: Option<u32>)
    ensures
        no_chip(roster@, id) ==> r is None,
        forall|i: int| #[trigger] first_chip(roster@, id, i) ==> r == roster@[i].attached_to,
{
    match find_chip(roster, id) {
        Some(i) => {
            proof {
                lemma_first_chip_unique(roster@, id, i as int);
            }
            roster[i].attached_to
        },
        None => None,
    }
}

proof fn lemma_first_chip_unique(roster: Seq<RadioChip>, id: u32, i: int)
    requires
        first_chip(roster, id, i),
    ensures
        forall|k: int| #[trigger] first_chip(roster, id, k) ==> k == i,
{
    assert forall|k: int| #[trigger] first_chip(roster, id, k) implies k == i by {
        if k < i {
            assert(roster[k].id != id);
        }
        if i < k {
            assert(roster[i].id != id);
        }
    }
}

/// What the power switch of radio `id` shows. `None` where there is no switch
/// to draw: the radio is not in the roster, is switched elsewhere, or is lent
/// out.
pub fn own_power_state(roster: &[RadioChip], id: u32) -> (r: Option<bool>)
    ensures
        no_chip(roster@, id) ==> r is None,
        forall|i: int| #[trigger]
            first_chip(roster@, id, i) ==> r == if roster@[i].switchable
                && roster@[i].attached_to is None {
                Some(roster@[i].enabled)
            } else {
                None
            },
{
    match find_chip(roster, id) {
        Some(i) => {
            proof {
                lemma_first_chip_unique(roster@, id, i as int);
            }
            if roster[i].switchable && roster[i].attached_to.is_none() {
                Some(roster[i].enabled)
            } else {
                None
            }
        },
        None => None,
    }
}

/// Whether a radio is on the air.
pub fn tab_tx_on(ptt: bool, tune: bool) -> (r: bool)
    ensures
        r == (ptt || tune),
{
    ptt || tune
}

/// The key that a radio's saved layout is stored under.
pub open spec fn view_key_text(radio_id: u32) -> Seq<char> {
    if radio_id == 0 {
        "view"@
    } else {
        "view:"@ + dec(radio_id as nat)
    }
}

/// The key that a radio's saved layout is stored under. The first radio's has
/// no number.
pub fn view_key(radio_id: u32) -> (k: String)
    ensures
        k@ == view_key_text(radio_id),
{
    if radio_id == 0 {
        "view".to_owned()
    } else {
        cat("view:", decimal(radio_id as u64).as_str())
    }
}

/// No two radios share a layout.
pub proof fn law_layouts_are_apart(a: u32, b: u32)
    requires
        a != b,
    ensures
        view_key_text(a) != view_key_text(b),
{
    reveal_strlit("view");
    reveal_strlit("view:");
    crate::text::lemma_dec_value(a as nat);
    crate::text::lemma_dec_value(b as nat);
    let (x, y) = (view_key_text(a), view_key_text(b));
    if a != 0 && b != 0 {
        assert(x.skip(5) =~= dec(a as nat));
        assert(y.skip(5) =~= dec(b as nat));
    }
    if a != 0 {
        assert(x.len() > 4);
    }
    if b != 0 {
        assert(y.len() > 4);
    }
}

/// `s` without the slashes at its end.
pub open spec fn without_slashes(s: Seq<char>) -> Seq<char>
    decreases s.len(),
{
    if s.len() > 0 && s.last() == '/' {
        without_slashes(s.drop_last())
    } else {
        s
    }
}

/// What stands behind the last `sep` of `s`.
pub open spec fn is_behind_last(s: Seq<char>, sep: Seq<char>, rest: Seq<char>) -> bool {
    exists|i: int| #[trigger]
        stands_at(s, sep, i) && rest == s.skip(i + sep.len()) && forall|j: int|
            i < j ==> !#[trigger] stands_at(s, sep, j)
}

fn cut_slashes(v: &Vec<char>) -> (n: usize)
    ensures
        n <= v@.len(),
        without_slashes(v@) == v@.take(n as int),
{
    let mut n: usize = v.len();
    assert(v@.take(n as int) =~= v@);
    while n > 0 && v[n - 1] == '/'
        invariant
            n <= v@.len(),
            without_slashes(v@) == without_slashes(v@.take(n as int)),
        decreases n,
    {
        assert(v@.take(n as int).drop_last() =~= v@.take(n - 1));
        assert(v@.take(n as int).last() == v@[n - 1]);
        n = n - 1;
    }
    if n > 0 {
        assert(v@.take(n as int).last() == v@[n - 1]);
    }
    n
}

/// The number that a station knows the radio at `url` by.
pub open spec fn url_radio(url: Seq<char>) -> u32 {
    let u = without_slashes(url);
    if exists|i: int| stands_at(u, "/ws/"@, i) {
        let rest = choose|rest: Seq<char>| is_behind_last(u, "/ws/"@, rest);
        match parsed(rest, 0xffff_ffff) {
            Some(v) => v as u32,
            None => 0,
        }
    } else {
        0
    }
}

proof fn lemma_behind_last_unique(s: Seq<char>, sep: Seq<char>, a: Seq<char>, b: Seq<char>)
    requires
        is_behind_last(s, sep, a),
        is_behind_last(s, sep, b),
    ensures
        a == b,
{
    let i = choose|i: int| #[trigger]
        stands_at(s, sep, i) && a == s.skip(i + sep.len()) && forall|j: int|
            i < j ==> !#[trigger] stands_at(s, sep, j);
    let k = choose|k: int| #[trigger]
        stands_at(s, sep, k) && b == s.skip(k + sep.len()) && forall|j: int|
            k < j ==> !#[trigger] stands_at(s, sep, j);
    assert(i == k);
}

/// Which radio a tab is, as the station it belongs to numbers it: its own
/// number on this machine, else the number at the end of its address. An
/// address without one is the station's first radio.
pub fn station_radio_id(url: Option<&str>, radio_id: u32) -> (r: u32)
    ensures
        r == match url {
            Some(u) => url_radio(u@),
            None => radio_id,
        },
{
    match url {
        Some(u) => radio_at(u),
        None => radio_id,
    }
}

fn radio_at(url: &str) -> (r: u32)
    ensures
        r == url_radio(url@),
{
    let v = chars_of(url);
    let n: usize = cut_slashes(&v);
    let ghost u = v@.take(n as int);
    proof {
        reveal_strlit("/ws/");
    }
    let ghost sep = "/ws/"@;
    assert(u == without_slashes(url@));
    if n < 4 {
        assert forall|i: int| !stands_at(u, sep, i) by {}
        return 0;
    }
    let mut i: usize = n - 3;
    while i > 0
        invariant
            n <= v@.len(),
            4 <= n,
            i <= n - 3,
            u == v@.take(n as int),
            u == without_slashes(url@),
            sep == "/ws/"@,
            sep.len() == 4,
            sep[0] == '/',
            sep[1] == 'w',
            sep[2] == 's',
            sep[3] == '/',
            forall|j: int| i <= j ==> !#[trigger] stands_at(u, sep, j),
        decreases i,
    {
        let k: usize = i - 1;
        if v[k] == '/' && v[k + 1] == 'w' && v[k + 2] == 's' && v[k + 3] == '/' {
            assert(u.subrange(k as int, k + 4) =~= sep);
            assert(stands_at(u, sep, k as int));
            let id = text_of(&v, k + 4, n);
            assert(id@ =~= u.skip(k + 4));
            proof {
                assert(is_behind_last(u, sep, id@));
                let rest = choose|rest: Seq<char>| is_behind_last(u, sep, rest);
                lemma_behind_last_unique(u, sep, id@, rest);
            }
            return match parse_unsigned(id.as_str(), 0xffff_ffff) {
                Some(x) => x,
                None => 0,
            };
        }
        assert(!stands_at(u, sep, k as int)) by {
            if stands_at(u, sep, k as int) {
                let s = u.subrange(k as int, k + 4);
                assert(s[0] == v@[k as int]);
                assert(s[1] == v@[k + 1]);
                assert(s[2] == v@[k + 2]);
                assert(s[3] == v@[k + 3]);
            }
        }
        i = i - 1;
    }
    0
}

/// What becomes of a hidden tab's sign-in.
#[derive(Clone, Copy, PartialEq, Eq, Structural, Debug)]
pub enum SignIn {
    /// The station asks nothing.
    Settled,
    /// Send the answer that is at hand.
    Answer,
    /// There is an answer, and it waits its turn at the station.
    Waiting,
    /// There is no answer without asking the operator.
    Stuck,
}

/// Answers a sign-in that nobody sees, as far as that can be done.
pub fn poll_auth(pending: bool, has_answer: bool, waiting: bool) -> (r: SignIn)
    ensures
        r == if !pending {
            SignIn::Settled
        } else if has_answer {
            SignIn::Answer
        } else if waiting {
            SignIn::Waiting
        } else {
            SignIn::Stuck
        },
{
    if !pending {
        SignIn::Settled
    } else if has_answer {
        SignIn::Answer
    } else if waiting {
        SignIn::Waiting
    } else {
        SignIn::Stuck
    }
}

/// What a change of focus asks for.
#[derive(Clone, Copy, PartialEq, Eq, Structural, Debug)]
pub enum FocusChange {
    /// The tab was focused, or not, already.
    Unchanged,
    /// Speech starts over, and the window takes this tab's title where the
    /// radio has one.
    Gained,
    /// Held controls are released: this tab will not see the key come up.
    Lost,
}

/// Focuses or unfocuses a tab.
pub fn set_focused(focused: &mut bool, now: bool) -> (c: FocusChange)
    ensures
        *final(focused) == now,
        c == if *old(focused) == now {
            FocusChange::Unchanged
        } else if now {
            FocusChange::Gained
        } else {
            FocusChange::Lost
        },
{
    if *focused == now {
        return FocusChange::Unchanged;
    }
    *focused = now;
    if now {
        FocusChange::Gained
    } else {
        FocusChange::Lost
    }
}

/// The window's title for a radio.
pub fn window_title(label: &str) -> (t: String)
    ensures
        t@ == "sdroxide — "@ + label@,
{
    cat("sdroxide — ", label)
}

/// The interface that a driver's name stands for. `None` for the stand-in and
/// for no name at all; a driver that is not listed has its first letter put in
/// upper case.
pub open spec fn interface_of(driver: Seq<char>) -> Option<Seq<char>> {
    if driver == "none"@ {
        None
    } else if driver == "cat"@ {
        Some("CAT"@)
    } else if driver == "hpsdr"@ {
        Some("HPSDR"@)
    } else if driver == "tci"@ {
        Some("TCI"@)
    } else if driver == "smartsdr"@ {
        Some("SmartSDR"@)
    } else if driver == "pluto"@ {
        Some("PlutoSDR"@)
    } else if driver == "rtlsdr"@ {
        Some("RTL-SDR"@)
    } else if driver == "rtltcp"@ {
        Some("RTL-SDR (rtl_tcp)"@)
    } else if driver == "spyserver"@ {
        Some("SpyServer"@)
    } else if driver == "spyserver-vfo"@ {
        Some("SpyServer (VFO)"@)
    } else if driver == "rx888"@ {
        Some("RX-888"@)
    } else if driver == "airspyhf"@ {
        Some("Airspy HF+"@)
    } else if driver == "sdrplay"@ {
        Some("SDRplay"@)
    } else if driver == "elad"@ {
        Some("ELAD"@)
    } else if driver == "hackrf"@ {
        Some("HackRF"@)
    } else if driver == "lime"@ {
        Some("LimeSDR"@)
    } else if driver == "airspy"@ {
        Some("Airspy"@)
    } else if driver == "sx"@ {
        Some("SXceiver"@)
    } else if driver == "uhd"@ {
        Some("USRP"@)
    } else if driver.len() == 0 {
        None
    } else {
        Some(uppercase(seq![driver[0]]) + driver.skip(1))
    }
}

fn listed_interface(driver: &str) -> (r: Option<&'static str>)
    ensures
        match r {
            Some(s) => interface_of(driver@) == Some(s@),
            None => driver@ != "none"@ && driver@.len() > 0 ==> interface_of(driver@) == Some(
                uppercase(seq![driver@[0]]) + driver@.skip(1),
            ),
        },
{
    if same(driver, "none") {
        None
    } else if same(driver, "cat") {
        Some("CAT")
    } else if same(driver, "hpsdr") {
        Some("HPSDR")
    } else if same(driver, "tci") {
        Some("TCI")
    } else if same(driver, "smartsdr") {
        Some("SmartSDR")
    } else if same(driver, "pluto") {
        Some("PlutoSDR")
    } else if same(driver, "rtlsdr") {
        Some("RTL-SDR")
    } else if same(driver, "rtltcp") {
        Some("RTL-SDR (rtl_tcp)")
    } else if same(driver, "spyserver") {
        Some("SpyServer")
    } else if same(driver, "spyserver-vfo") {
        Some("SpyServer (VFO)")
    } else if same(driver, "rx888") {
        Some("RX-888")
    } else if same(driver, "airspyhf") {
        Some("Airspy HF+")
    } else if same(driver, "sdrplay") {
        Some("SDRplay")
    } else if same(driver, "elad") {
        Some("ELAD")
    } else if same(driver, "hackrf") {
        Some("HackRF")
    } else if same(driver, "lime") {
        Some("LimeSDR")
    } else if same(driver, "airspy") {
        Some("Airspy")
    } else if same(driver, "sx") {
        Some("SXceiver")
    } else if same(driver, "uhd") {
        Some("USRP")
    } else {
        None
    }
}

/// What a radio is called while the operator has not named it: the interface
/// it runs on. `None` while there is no interface to name it after.
pub fn interface_name(driver: Option<&str>) -> (r: Option<String>)
    ensures
        match driver {
            Some(d) => match (interface_of(d@), r) {
                (Some(t), Some(s)) => s@ == t,
                (None, None) => true,
                _ => false,
            },
            None => r is None,
        },
{
    let d = match driver {
        Some(d) => d,
        None => {
            return None;
        },
    };
    match listed_interface(d) {
        Some(s) => Some(s.to_owned()),
        None => {
            if same(d, "none") || d.is_empty() {
                proof {
                    lemma_listed_not_empty(d@);
                }
                return None;
            }
            let v = chars_of(d);
            let first = text_of(&v, 0, 1);
            assert(first@ =~= seq![d@[0]]);
            let mut r = to_uppercase(first.as_str());
            let rest = text_of(&v, 1, v.len());
            assert(rest@ =~= d@.skip(1));
            r.append(rest.as_str());
            Some(r)
        },
    }
}

proof fn lemma_listed_not_empty(d: Seq<char>)
    requires
        d == "none"@ || d.len() == 0,
    ensures
        interface_of(d) is None,
{
    reveal_strlit("cat");
    reveal_strlit("hpsdr");
    reveal_strlit("tci");
    reveal_strlit("smartsdr");
    reveal_strlit("pluto");
    reveal_strlit("rtlsdr");
    reveal_strlit("rtltcp");
    reveal_strlit("spyserver");
    reveal_strlit("spyserver-vfo");
    reveal_strlit("rx888");
    reveal_strlit("airspyhf");
    reveal_strlit("sdrplay");
    reveal_strlit("elad");
    reveal_strlit("hackrf");
    reveal_strlit("lime");
    reveal_strlit("airspy");
    reveal_strlit("sx");
    reveal_strlit("uhd");
}

/// The operator's name is shown where they gave one, and the derived one
/// otherwise.
pub proof fn law_a_given_name_is_shown(c: RadioChip)
    ensures
        c.name@.len() > 0 ==> c.shown_name() == c.name@,
        c.name@.len() == 0 ==> c.shown_name() == c.default_name@,
{
}

/// The first radio's layout has a key without a number, every other's ends with
/// its number.
pub proof fn law_a_layout_is_stored_by_number(radio_id: u32)
    ensures
        radio_id == 0 ==> view_key_text(radio_id) == "view"@,
        radio_id != 0 ==> view_key_text(radio_id) == "view:"@ + dec(radio_id as nat),
{
}

/// The number at the end of an address is the radio's, whatever stands before it
/// and however many slashes follow.
pub proof fn law_the_address_ends_with_the_radio(base: Seq<char>, n: u32, url: Seq<char>)
    ensures
        url_radio(base + "/ws/"@ + dec(n as nat)) == n,
        url_radio(url.push('/')) == url_radio(url),
{
    reveal_strlit("/ws/");
    crate::text::lemma_dec_value(n as nat);
    let sep = "/ws/"@;
    let d = dec(n as nat);
    let u = base + sep + d;
    let i = base.len() as int;
    assert(u.last() == d.last());
    assert('0' <= d[d.len() - 1] && d[d.len() - 1] <= '9');
    assert(without_slashes(u) == u);
    assert(u.subrange(i, i + 4) =~= sep);
    assert(stands_at(u, sep, i));
    assert forall|j: int| i < j implies !#[trigger] stands_at(u, sep, j) by {
        if stands_at(u, sep, j) {
            let s = u.subrange(j, j + 4);
            assert(s[0] == u[j] && s[1] == u[j + 1]);
            if j >= i + 4 {
                assert(u[j] == d[j - i - 4]);
            } else {
                assert(u[j] == sep[j - i]);
                assert(j == i + 3);
                assert(u[j + 1] == d[0]);
            }
        }
    }
    assert(u.skip(i + 4) =~= d);
    assert(is_behind_last(u, sep, d));
    let rest = choose|rest: Seq<char>| is_behind_last(u, sep, rest);
    lemma_behind_last_unique(u, sep, d, rest);
    assert('0' <= d[0] && d[0] <= '9');
    assert(parsed(d, 0xffff_ffff) == Some(n as nat));
    assert(url.push('/').drop_last() =~= url);
}

/// An address without a radio's place in it is the first radio's.
pub proof fn law_a_bare_address_is_the_first_radio(url: Seq<char>)
    requires
        url.len() > 0,
        url.last() != '/',
        forall|i: int| !#[trigger] stands_at(url, "/ws/"@, i),
    ensures
        url_radio(url) == 0,
{
}

/// A driver that is known by name stands for its interface as it is written on
/// the box; any other has its first letter put in upper case and the rest left
/// alone. The stand-in and no name at all stand for nothing.
#[verifier::rlimit(60)]
pub proof fn law_a_driver_stands_for_its_interface(driver: Seq<char>)
    ensures
        driver == "cat"@ ==> interface_of(driver) == Some("CAT"@),
        driver == "hpsdr"@ ==> interface_of(driver) == Some("HPSDR"@),
        driver == "tci"@ ==> interface_of(driver) == Some("TCI"@),
        driver == "smartsdr"@ ==> interface_of(driver) == Some("SmartSDR"@),
        driver == "pluto"@ ==> interface_of(driver) == Some("PlutoSDR"@),
        driver == "rtlsdr"@ ==> interface_of(driver) == Some("RTL-SDR"@),
        driver == "rtltcp"@ ==> interface_of(driver) == Some("RTL-SDR (rtl_tcp)"@),
        driver == "spyserver"@ ==> interface_of(driver) == Some("SpyServer"@),
        driver == "spyserver-vfo"@ ==> interface_of(driver) == Some("SpyServer (VFO)"@),
        driver == "rx888"@ ==> interface_of(driver) == Some("RX-888"@),
        driver == "airspyhf"@ ==> interface_of(driver) == Some("Airspy HF+"@),
        driver == "sdrplay"@ ==> interface_of(driver) == Some("SDRplay"@),
        driver == "elad"@ ==> interface_of(driver) == Some("ELAD"@),
        driver == "hackrf"@ ==> interface_of(driver) == Some("HackRF"@),
        driver == "lime"@ ==> interface_of(driver) == Some("LimeSDR"@),
        driver == "airspy"@ ==> interface_of(driver) == Some("Airspy"@),
        driver == "sx"@ ==> interface_of(driver) == Some("SXceiver"@),
        driver == "uhd"@ ==> interface_of(driver) == Some("USRP"@),
        interface_of(driver) is None <==> driver == "none"@ || driver.len() == 0,
        driver.len() > 0 && driver != "none"@ && driver != "cat"@ && driver != "hpsdr"@ && driver != "tci"@ && driver != "smartsdr"@ && driver != "pluto"@ && driver != "rtlsdr"@ && driver != "rtltcp"@ && driver != "spyserver"@ && driver != "spyserver-vfo"@ && driver != "rx888"@ && driver != "airspyhf"@ && driver != "sdrplay"@ && driver != "elad"@ && driver != "hackrf"@ && driver != "lime"@ && driver != "airspy"@ && driver != "sx"@ && driver != "uhd"@ ==> interface_of(driver) == Some(
            uppercase(seq![driver[0]]) + driver.skip(1),
        ),
{
    reveal_strlit("none");
    reveal_strlit("cat");
    reveal_strlit("hpsdr");
    reveal_strlit("tci");
    reveal_strlit("smartsdr");
    reveal_strlit("pluto");
    reveal_strlit("rtlsdr");
    reveal_strlit("rtltcp");
    reveal_strlit("spyserver");
    reveal_strlit("spyserver-vfo");
    reveal_strlit("rx888");
    reveal_strlit("airspyhf");
    reveal_strlit("sdrplay");
    reveal_strlit("elad");
    reveal_strlit("hackrf");
    reveal_strlit("lime");
    reveal_strlit("airspy");
    reveal_strlit("sx");
    reveal_strlit("uhd");
    assert("none"@.len() == 4);
    assert("cat"@.len() == 3);
    assert("hpsdr"@.len() == 5);
    assert("tci"@.len() == 3);
    assert("smartsdr"@.len() == 8);
    assert("pluto"@.len() == 5);
    assert("rtlsdr"@.len() == 6);
    assert("rtltcp"@.len() == 6);
    assert("spyserver"@.len() == 9);
    assert("spyserver-vfo"@.len() == 13);
    assert("rx888"@.len() == 5);
    assert("airspyhf"@.len() == 8);
    assert("sdrplay"@.len() == 7);
    assert("elad"@.len() == 4);
    assert("hackrf"@.len() == 6);
    assert("lime"@.len() == 4);
    assert("airspy"@.len() == 6);
    assert("sx"@.len() == 2);
    assert("uhd"@.len() == 3);
    assert("none"@[0] != "elad"@[0]);
    assert("none"@[0] != "lime"@[0]);
    assert("cat"@[0] != "tci"@[0]);
    assert("cat"@[0] != "uhd"@[0]);
    assert("hpsdr"@[0] != "pluto"@[0]);
    assert("hpsdr"@[0] != "rx888"@[0]);
    assert("tci"@[0] != "uhd"@[0]);
    assert("smartsdr"@[0] != "airspyhf"@[0]);
    assert("pluto"@[0] != "rx888"@[0]);
    assert("rtlsdr"@[3] != "rtltcp"@[3]);
    assert("rtlsdr"@[0] != "hackrf"@[0]);
    assert("rtlsdr"@[0] != "airspy"@[0]);
    assert("rtltcp"@[0] != "hackrf"@[0]);
    assert("rtltcp"@[0] != "airspy"@[0]);
    assert("elad"@[0] != "lime"@[0]);
    assert("hackrf"@[0] != "airspy"@[0]);
}

/// A radio is found by its number; where no two share one there is no other.
pub proof fn law_a_radio_is_found_by_its_number(roster: Seq<RadioChip>, id: u32, i: int, j: int)
    requires
        first_chip(roster, id, i),
        0 <= j < roster.len(),
        roster[j].id == id,
    ensures
        0 <= i <= j,
        roster[i].id == id,
        !no_chip(roster, id),
{
}

} // verus!
