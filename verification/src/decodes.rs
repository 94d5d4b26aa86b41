//! The decode list: which decodes are listed, in which turns and order, and
//! what pressing a row does.

use vstd::prelude::*;

use crate::clock::{hms_str, hms_text};
use crate::command::{Call, Command, DigiConfig};
use crate::ink::Ink;
use crate::keys::{
    lemma_text_asymmetric, name_chars, num_key, text_less, NameDown, NameUp, NumKey,
};
use crate::net::as_text;
use crate::order::{is_stable_order, listed_before, stable_order, Ranked};
use crate::qso::copy_text;
use crate::setup::QsoFigures;
use crate::text::{eq_ignore_case, join, joined, same, same_ignoring_case, texts, trim, trimmed};

verus! {

/// One decoded message.
#[derive(Debug)]
pub struct Decode {
    /// When its slot began.
    pub slot_utc: i64,
    pub snr_db: i32,
    /// Audio offset in thousandths of a hertz.
    pub audio_millihz: u32,
    pub from: Option<String>,
    pub to: Option<String>,
    pub grid: Option<String>,
    /// Whom a directed CQ names.
    pub cq_to: Option<String>,
    pub is_cq: bool,
    pub free_text: bool,
    pub message: String,
}

/// What working a station would be worth.
#[derive(Clone, Copy, PartialEq, Eq, Structural, Debug)]
pub enum Highlight {
    NewDxcc,
    NewDxccBand,
    NewGrid,
    NewCall,
    Dupe,
}

/// What is known of a decode beside its message.
#[derive(Debug)]
pub struct Facts {
    /// A CQ that this station may answer.
    pub cq: bool,
    /// Working them would be new in some way.
    pub is_new: bool,
    /// Worked before on this band.
    pub dupe: bool,
    pub highlight: Option<Highlight>,
    /// A number that orders decodes by their distance.
    pub dist_rank: Option<i64>,
    pub country: Option<String>,
}

/// What the list is ordered by.
#[derive(Clone, Copy, PartialEq, Eq, Structural, Debug)]
pub enum DecodeSort {
    Arrival,
    Signal,
    Distance,
    Country,
}

/// How the operator reads the list.
#[derive(Clone, Copy, PartialEq, Eq, Structural, Debug)]
pub struct ListView {
    pub sort: DecodeSort,
    pub desc: bool,
    pub single: bool,
    pub cq_only: bool,
    pub new_only: bool,
}

/// True of a mode that this panel works.
pub open spec fn is_worked_mode(mode: Seq<char>) -> bool {
    same_ignoring_case(trim(mode), "FT8"@) || same_ignoring_case(trim(mode), "FT4"@)
        || same_ignoring_case(trim(mode), "FT8-4"@) || same_ignoring_case(trim(mode), "FT2"@)
}

/// Whether a spot's announced mode is one that this panel works. Feeds differ
/// in case and in how they spell FT4.
pub fn is_ft8_or_ft4(mode: &str) -> (r: bool)
    ensures
        r == is_worked_mode(mode@),
{
    let m = trimmed(mode);
    eq_ignore_case(m.as_str(), "FT8") || eq_ignore_case(m.as_str(), "FT4") || eq_ignore_case(
        m.as_str(),
        "FT8-4",
    ) || eq_ignore_case(m.as_str(), "FT2")
}

/// The list after a press on a sort chip. Pressing the active one turns the
/// order round; another one sorts strongest and farthest first, but countries
/// from A to Z.
pub open spec fn pressed(v: ListView, m: DecodeSort) -> ListView {
    if v.sort == m && m != DecodeSort::Arrival {
        ListView { desc: !v.desc, ..v }
    } else {
        ListView { sort: m, desc: m != DecodeSort::Country, ..v }
    }
}

/// Presses a sort chip.
pub fn press_sort(v: ListView, m: DecodeSort) -> (r: ListView)
    ensures
        r == pressed(v, m),
{
    if v.sort == m && m != DecodeSort::Arrival {
        ListView { desc: !v.desc, ..v }
    } else {
        ListView { sort: m, desc: m != DecodeSort::Country, ..v }
    }
}

/// The face of a sort chip: the active one shows which way it sorts.
pub fn sort_label(v: ListView, m: DecodeSort, label: &str) -> (t: String)
    ensures
        t@ == label@ + (if v.sort == m && m != DecodeSort::Arrival {
            if v.desc {
                " ↓"@
            } else {
                " ↑"@
            }
        } else {
            Seq::empty()
        }),
{
    let mut t = label.to_owned();
    if v.sort == m && m != DecodeSort::Arrival {
        t.append(
            if v.desc {
                " ↓"
            } else {
                " ↑"
            },
        );
    }
    assert(label@ + Seq::empty() =~= label@);
    t
}

/// Two presses on the active sort chip leave the list as it was, and no press
/// touches the grouping or the filters.
pub proof fn law_sort_press_turns_round(v: ListView, m: DecodeSort)
    ensures
        v.sort == m && m != DecodeSort::Arrival ==> pressed(pressed(v, m), m) == v,
        pressed(v, m).sort == m,
        pressed(v, m).single == v.single && pressed(v, m).cq_only == v.cq_only && pressed(
            v,
            m,
        ).new_only == v.new_only,
{
}

/// True of a message addressed to this station.
pub open spec fn is_to_me(d: Decode, my_call: Seq<char>) -> bool {
    my_call.len() > 0 && (d.to matches Some(t) && t@ == my_call)
}

fn to_me(d: &Decode, my_call: &str) -> (r: bool)
    ensures
        r == is_to_me(*d, my_call@),
{
    if my_call.is_empty() {
        return false;
    }
    match &d.to {
        Some(t) => same(t.as_str(), my_call),
        None => false,
    }
}

/// True of a decode that the filters let through. A message to this station
/// passes every filter: it is the one that is owed an answer.
pub open spec fn passes(d: Decode, f: Facts, my_call: Seq<char>, v: ListView) -> bool {
    is_to_me(d, my_call) || ((v.cq_only ==> f.cq) && (v.new_only ==> f.is_new))
}

/// The places of the decodes that pass, in order.
pub open spec fn kept(
    decodes: Seq<Decode>,
    facts: Seq<Facts>,
    my_call: Seq<char>,
    v: ListView,
    upto: nat,
) -> Seq<usize>
    decreases upto,
{
    if upto == 0 {
        Seq::empty()
    } else {
        let rest = kept(decodes, facts, my_call, v, (upto - 1) as nat);
        if passes(decodes[upto - 1], facts[upto - 1], my_call, v) {
            rest.push((upto - 1) as usize)
        } else {
            rest
        }
    }
}

/// True when a name, or the lack of one, comes ahead of another.
pub open spec fn name_before(a: Option<String>, b: Option<String>, desc: bool) -> bool {
    match (a, b) {
        (Some(x), Some(y)) => if desc {
            text_less(y@, x@)
        } else {
            text_less(x@, y@)
        },
        (Some(_), None) => true,
        (None, _) => false,
    }
}

/// The number that a decode is ordered by, where it is one.
pub open spec fn sort_value(sort: DecodeSort, d: Decode, f: Facts) -> Option<i64> {
    match sort {
        DecodeSort::Signal => Some(d.snr_db as i64),
        DecodeSort::Distance => f.dist_rank,
        _ => None,
    }
}

/// True when decode `a` is to stand ahead of decode `b`. One without a
/// distance, or without a country, stands last either way.
pub open spec fn row_before(
    decodes: Seq<Decode>,
    facts: Seq<Facts>,
    v: ListView,
    a: int,
    b: int,
) -> bool {
    match v.sort {
        DecodeSort::Country => name_before(facts[a].country, facts[b].country, v.desc),
        _ => num_key(sort_value(v.sort, decodes[a], facts[a]), v.desc).before(
            &num_key(sort_value(v.sort, decodes[b], facts[b]), v.desc),
        ),
    }
}

/// A run of rows: one turn of the clock, or the whole list.
#[derive(Clone, Copy, PartialEq, Eq, Structural, Debug)]
pub struct Turn {
    pub start: usize,
    pub end: usize,
}

/// The rows of the list, as places in the list of decodes, and their turns.
#[derive(Debug)]
pub struct Rows {
    pub rows: Vec<usize>,
    pub turns: Vec<Turn>,
}

/// True when the turns are the runs of decodes of one slot in `places`, or
/// one run of them all in the single list.
pub open spec fn is_turns(
    decodes: Seq<Decode>,
    places: Seq<usize>,
    single: bool,
    turns: Seq<Turn>,
    upto: int,
) -> bool {
    &&& turns.len() == 0 ==> upto == 0
    &&& turns.len() > 0 ==> turns[0].start == 0 && turns.last().end == upto
    &&& forall|k: int, n: int|
        0 <= k && n == k + 1 && n < turns.len() ==> (#[trigger] turns[k]).end == (
        #[trigger] turns[n]).start
    &&& forall|k: int| 0 <= k < turns.len() ==> is_turn(decodes, places, single, #[trigger] turns[k])
}

/// True of one run: as long as it can be, all of one slot.
pub open spec fn is_turn(decodes: Seq<Decode>, places: Seq<usize>, single: bool, t: Turn) -> bool {
    &&& t.start < t.end <= places.len()
    &&& single ==> t.start == 0 && t.end == places.len()
    &&& !single ==> {
        let slot = decodes[places[t.start as int] as int].slot_utc;
        &&& forall|i: int|
            t.start <= i < t.end ==> decodes[#[trigger] places[i] as int].slot_utc == slot
        &&& t.end < places.len() ==> decodes[places[t.end as int] as int].slot_utc != slot
    }
}

/// True when `rows` lists the decodes that `places` has in a run, in order.
/// Decodes that tie stay as they came.
pub open spec fn is_sorted_turn(
    decodes: Seq<Decode>,
    facts: Seq<Facts>,
    v: ListView,
    places: Seq<usize>,
    rows: Seq<usize>,
    t: Turn,
) -> bool {
    let p = places.subrange(t.start as int, t.end as int);
    let r = rows.subrange(t.start as int, t.end as int);
    &&& forall|x: usize| #[trigger] p.contains(x) == r.contains(x)
    &&& forall|i: int, j: int|
        0 <= i < j < r.len() ==> stands_ahead(
            decodes,
            facts,
            v,
            #[trigger] r[i] as int,
            #[trigger] r[j] as int,
        )
}

/// True when decode `a` is listed ahead of decode `b` in one run.
pub open spec fn stands_ahead(
    decodes: Seq<Decode>,
    facts: Seq<Facts>,
    v: ListView,
    a: int,
    b: int,
) -> bool {
    row_before(decodes, facts, v, a, b) || (!row_before(decodes, facts, v, b, a) && a < b)
}

spec fn is_places(places: Seq<usize>, n: int) -> bool {
    &&& forall|i: int| 0 <= i < places.len() ==> #[trigger] places[i] < n
    &&& forall|i: int, j: int| 0 <= i < j < places.len() ==> #[trigger] places[i] < #[trigger] places[j]
}

fn kept_places(
    decodes: &Vec<Decode>,
    facts: &Vec<Facts>,
    my_call: &str,
    v: ListView,
) -> (p: Vec<usize>)
    requires
        decodes@.len() == facts@.len(),
    ensures
        p@ == kept(decodes@, facts@, my_call@, v, decodes@.len()),
        is_places(p@, decodes@.len() as int),
        forall|i: usize|
            i < decodes@.len() ==> #[trigger] p@.contains(i) == ((my_call@.len() > 0 && decodes@[i as int].to is Some && decodes@[i as int].to->0@ == my_call@) || ((
                v.cq_only ==> facts@[i as int].cq) && (v.new_only ==> facts@[i as int].is_new))),
{
    let mut p: Vec<usize> = Vec::new();
    let mut i: usize = 0;
    while i < decodes.len()
        invariant
            i <= decodes@.len(),
            decodes@.len() == facts@.len(),
            p@ == kept(decodes@, facts@, my_call@, v, i as nat),
            is_places(p@, i as int),
        decreases decodes@.len() - i,
    {
        let f = &facts[i];
        if to_me(&decodes[i], my_call) || ((!v.cq_only || f.cq) && (!v.new_only || f.is_new)) {
            p.push(i);
        }
        i = i + 1;
    }
    proof {
        assert forall|i: usize| i < decodes@.len() implies #[trigger] p@.contains(i) == ((my_call@.len() > 0 && decodes@[i as int].to is Some && decodes@[i as int].to->0@ == my_call@) || ((
                v.cq_only ==> facts@[i as int].cq) && (v.new_only ==> facts@[i as int].is_new))) by {
            law_the_filters_decide(decodes@, facts@, my_call@, v, decodes@.len(), i as int);
        }
    }
    p
}

spec fn is_run_order(
    decodes: Seq<Decode>,
    facts: Seq<Facts>,
    v: ListView,
    p: Seq<usize>,
    order: Seq<usize>,
) -> bool {
    &&& order.len() == p.len()
    &&& forall|i: int| 0 <= i < order.len() ==> #[trigger] order[i] < p.len()
    &&& forall|x: usize| x < p.len() ==> #[trigger] order.contains(x)
    &&& forall|i: int, j: int|
        0 <= i < j < order.len() ==> stands_ahead(
            decodes,
            facts,
            v,
            p[#[trigger] order[i] as int] as int,
            p[#[trigger] order[j] as int] as int,
        )
}

proof fn lemma_run_order<K: Ranked>(
    decodes: Seq<Decode>,
    facts: Seq<Facts>,
    v: ListView,
    p: Seq<usize>,
    keys: Seq<K>,
    order: Seq<usize>,
)
    requires
        is_places(p, decodes.len() as int),
        keys.len() == p.len(),
        is_stable_order(keys, order),
        forall|a: int, b: int|
            0 <= a < p.len() && 0 <= b < p.len() ==> #[trigger] keys[a].before(
                &keys[b],
            ) == row_before(decodes, facts, v, p[a] as int, p[b] as int),
    ensures
        is_run_order(decodes, facts, v, p, order),
{
    assert forall|i: int, j: int| 0 <= i < j < order.len() implies stands_ahead(
        decodes,
        facts,
        v,
        p[#[trigger] order[i] as int] as int,
        p[#[trigger] order[j] as int] as int,
    ) by {
        let (a, b) = (order[i] as int, order[j] as int);
        assert(listed_before(keys, a, b));
        assert(keys[a].before(&keys[b]) == row_before(decodes, facts, v, p[a] as int, p[b] as int));
        assert(keys[b].before(&keys[a]) == row_before(decodes, facts, v, p[b] as int, p[a] as int));
    }
}

#[verifier::rlimit(30)]
fn run_order(
    decodes: &Vec<Decode>,
    facts: &Vec<Facts>,
    v: ListView,
    places: &Vec<usize>,
    t: Turn,
) -> (order: Vec<usize>)
    requires
        decodes@.len() == facts@.len(),
        is_places(places@, decodes@.len() as int),
        t.start <= t.end <= places@.len(),
    ensures
        is_run_order(
            decodes@,
            facts@,
            v,
            places@.subrange(t.start as int, t.end as int),
            order@,
        ),
{
    let ghost p = places@.subrange(t.start as int, t.end as int);
    if v.sort == DecodeSort::Country {
        if v.desc {
            let mut keys: Vec<NameDown> = Vec::new();
            let mut i: usize = t.start;
            while i < t.end
                invariant
                    t.start <= i <= t.end <= places@.len(),
                    decodes@.len() == facts@.len(),
                    is_places(places@, decodes@.len() as int),
                    p == places@.subrange(t.start as int, t.end as int),
                    keys@.len() == i - t.start,
                    forall|k: int|
                        0 <= k < keys@.len() ==> match (
                            (#[trigger] keys@[k]).name,
                            facts@[p[k] as int].country,
                        ) {
                            (Some(a), Some(b)) => a@ == b@,
                            (None, None) => true,
                            _ => false,
                        },
                decreases t.end - i,
            {
                assert(p[i - t.start] == places@[i as int]);
                keys.push(NameDown { name: name_chars(as_text(&facts[places[i]].country)) });
                i = i + 1;
            }
            let order = stable_order(&keys);
            proof {
                lemma_run_order(decodes@, facts@, v, p, keys@, order@);
            }
            order
        } else {
            let mut keys: Vec<NameUp> = Vec::new();
            let mut i: usize = t.start;
            while i < t.end
                invariant
                    t.start <= i <= t.end <= places@.len(),
                    decodes@.len() == facts@.len(),
                    is_places(places@, decodes@.len() as int),
                    p == places@.subrange(t.start as int, t.end as int),
                    keys@.len() == i - t.start,
                    forall|k: int|
                        0 <= k < keys@.len() ==> match (
                            (#[trigger] keys@[k]).name,
                            facts@[p[k] as int].country,
                        ) {
                            (Some(a), Some(b)) => a@ == b@,
                            (None, None) => true,
                            _ => false,
                        },
                decreases t.end - i,
            {
                assert(p[i - t.start] == places@[i as int]);
                keys.push(NameUp { name: name_chars(as_text(&facts[places[i]].country)) });
                i = i + 1;
            }
            let order = stable_order(&keys);
            proof {
                lemma_run_order(decodes@, facts@, v, p, keys@, order@);
            }
            order
        }
    } else {
        let mut keys: Vec<NumKey> = Vec::new();
        let mut i: usize = t.start;
        while i < t.end
            invariant
                t.start <= i <= t.end <= places@.len(),
                decodes@.len() == facts@.len(),
                is_places(places@, decodes@.len() as int),
                p == places@.subrange(t.start as int, t.end as int),
                keys@.len() == i - t.start,
                forall|k: int|
                    0 <= k < keys@.len() ==> #[trigger] keys@[k] == num_key(
                        sort_value(v.sort, decodes@[p[k] as int], facts@[p[k] as int]),
                        v.desc,
                    ),
            decreases t.end - i,
        {
            assert(p[i - t.start] == places@[i as int]);
            let at: usize = places[i];
            let value: Option<i64> = match v.sort {
                DecodeSort::Signal => Some(decodes[at].snr_db as i64),
                DecodeSort::Distance => facts[at].dist_rank,
                _ => None,
            };
            keys.push(NumKey::of(value, v.desc));
            i = i + 1;
        }
        let order = stable_order(&keys);
        proof {
            lemma_run_order(decodes@, facts@, v, p, keys@, order@);
        }
        order
    }
}

fn find_turns(decodes: &Vec<Decode>, places: &Vec<usize>, single: bool) -> (turns: Vec<Turn>)
    requires
        is_places(places@, decodes@.len() as int),
    ensures
        is_turns(decodes@, places@, single, turns@, places@.len() as int),
{
    let mut turns: Vec<Turn> = Vec::new();
    let mut g: usize = 0;
    while g < places.len()
        invariant
            g <= places@.len(),
            is_places(places@, decodes@.len() as int),
            is_turns(decodes@, places@, single, turns@, g as int),
            single ==> g == 0 || g == places@.len(),
        decreases places@.len() - g,
    {
        let slot: i64 = decodes[places[g]].slot_utc;
        let mut end: usize = g + 1;
        while end < places.len() && (single || decodes[places[end]].slot_utc == slot)
            invariant
                g < end <= places@.len(),
                is_places(places@, decodes@.len() as int),
                slot == decodes@[places@[g as int] as int].slot_utc,
                !single ==> forall|i: int|
                    g <= i < end ==> decodes@[#[trigger] places@[i] as int].slot_utc == slot,
            decreases places@.len() - end,
        {
            end = end + 1;
        }
        let ghost before = turns@;
        let t = Turn { start: g, end };
        assert(is_turn(decodes@, places@, single, t));
        turns.push(t);
        proof {
            assert forall|k: int, n: int| 0 <= k && n == k + 1 && n < turns@.len() implies (
            #[trigger] turns@[k]).end == (#[trigger] turns@[n]).start by {
                assert(turns@[k] == before[k]);
                if n < before.len() {
                    assert(turns@[n] == before[n]);
                }
            }
        }
        g = end;
    }
    turns
}

proof fn lemma_sorted_turn(
    decodes: Seq<Decode>,
    facts: Seq<Facts>,
    v: ListView,
    places: Seq<usize>,
    rows: Seq<usize>,
    t: Turn,
    order: Seq<usize>,
)
    requires
        t.start <= t.end <= places.len(),
        rows.len() >= t.end,
        is_run_order(decodes, facts, v, places.subrange(t.start as int, t.end as int), order),
        forall|k: int|
            0 <= k < order.len() ==> rows[t.start + k] == places[t.start + #[trigger] order[k]],
    ensures
        is_sorted_turn(decodes, facts, v, places, rows, t),
{
    let p = places.subrange(t.start as int, t.end as int);
    let r = rows.subrange(t.start as int, t.end as int);
    assert forall|k: int| 0 <= k < r.len() implies r[k] == p[#[trigger] order[k] as int] by {
        assert(rows[t.start + k] == places[t.start + order[k]]);
    }
    assert forall|x: usize| #[trigger] p.contains(x) == r.contains(x) by {
        if p.contains(x) {
            let a = choose|a: int| 0 <= a < p.len() && p[a] == x;
            assert(order.contains(a as usize));
            let k = choose|k: int| 0 <= k < order.len() && order[k] == a as usize;
            assert(r[k] == p[order[k] as int]);
        }
        if r.contains(x) {
            let k = choose|k: int| 0 <= k < r.len() && r[k] == x;
            assert(r[k] == p[order[k] as int]);
        }
    }
    assert forall|i: int, j: int| 0 <= i < j < r.len() implies stands_ahead(
        decodes,
        facts,
        v,
        #[trigger] r[i] as int,
        #[trigger] r[j] as int,
    ) by {
        assert(r[i] == p[order[i] as int]);
        assert(r[j] == p[order[j] as int]);
    }
}

/// The rows of the list: the decodes that pass the filters, newest turn first,
/// each turn sorted by itself or the whole list at once.
#[verifier::rlimit(30)]
pub fn decode_rows(
    decodes: &Vec<Decode>,
    facts: &Vec<Facts>,
    my_call: &str,
    v: ListView,
) -> (out: Rows)
    requires
        decodes@.len() == facts@.len(),
    ensures
        out.rows@.len() == kept(decodes@, facts@, my_call@, v, decodes@.len()).len(),
        is_turns(
            decodes@,
            kept(decodes@, facts@, my_call@, v, decodes@.len()),
            v.single,
            out.turns@,
            out.rows@.len() as int,
        ),
        forall|k: int|
            0 <= k < out.turns@.len() ==> is_sorted_turn(
                decodes@,
                facts@,
                v,
                kept(decodes@, facts@, my_call@, v, decodes@.len()),
                out.rows@,
                #[trigger] out.turns@[k],
            ),
        forall|k: int| 0 <= k < out.rows@.len() ==> #[trigger] out.rows@[k] < decodes@.len(),
        forall|i: usize|
            i < decodes@.len() ==> #[trigger] out.rows@.contains(i) == ((my_call@.len() > 0 && decodes@[i as int].to is Some && decodes@[i as int].to->0@ == my_call@) || ((
                v.cq_only ==> facts@[i as int].cq) && (v.new_only ==> facts@[i as int].is_new))),
        out.rows@.no_duplicates(),
{
    let places = kept_places(decodes, facts, my_call, v);
    let turns = find_turns(decodes, &places, v.single);
    let mut rows: Vec<usize> = Vec::new();
    let mut g: usize = 0;
    while g < turns.len()
        invariant
            g <= turns@.len(),
            decodes@.len() == facts@.len(),
            is_places(places@, decodes@.len() as int),
            is_turns(decodes@, places@, v.single, turns@, places@.len() as int),
            rows@.len() == if g == 0 {
                0
            } else {
                turns@[g - 1].end as int
            },
            forall|k: int|
                0 <= k < g ==> is_sorted_turn(
                    decodes@,
                    facts@,
                    v,
                    places@,
                    rows@,
                    #[trigger] turns@[k],
                ),
        decreases turns@.len() - g,
    {
        let t: Turn = turns[g];
        assert(is_turn(decodes@, places@, v.single, t));
        assert(rows@.len() == t.start);
        let order = run_order(decodes, facts, v, &places, t);
        let ghost before = rows@;
        let mut k: usize = 0;
        while k < order.len()
            invariant
                k <= order@.len(),
                t.start <= t.end <= places@.len(),
                order@.len() == t.end - t.start,
                before.len() == t.start,
                rows@.len() == t.start + k,
                rows@.take(before.len() as int) == before,
                forall|i: int| 0 <= i < order@.len() ==> #[trigger] order@[i] < t.end - t.start,
                forall|i: int|
                    0 <= i < k ==> rows@[t.start + i] == places@[t.start + #[trigger] order@[i]],
            decreases order@.len() - k,
        {
            assert(order@[k as int] < t.end - t.start);
            let ghost mid = rows@;
            rows.push(places[t.start + order[k]]);
            assert(rows@.take(before.len() as int) =~= mid.take(before.len() as int));
            k = k + 1;
        }
        proof {
            lemma_sorted_turn(decodes@, facts@, v, places@, rows@, t, order@);
            assert forall|k: int| 0 <= k < g implies is_sorted_turn(
                decodes@,
                facts@,
                v,
                places@,
                rows@,
                #[trigger] turns@[k],
            ) by {
                lemma_turn_end(turns@, decodes@, places@, v.single, k, g as int);
                let u = turns@[k];
                assert(is_sorted_turn(decodes@, facts@, v, places@, before, u));
                assert(rows@.subrange(u.start as int, u.end as int) =~= before.subrange(
                    u.start as int,
                    u.end as int,
                )) by {
                    assert forall|i: int| 0 <= i < before.len() implies rows@[i] == before[i] by {
                        assert(rows@.take(before.len() as int)[i] == rows@[i]);
                    }
                }
            }
        }
        g = g + 1;
    }
    proof {
        lemma_rows_are_places(decodes@, facts@, v, places@, rows@, turns@);
        assert forall|k: int| 0 <= k < rows@.len() implies #[trigger] rows@[k] < decodes@.len() by {
            assert(rows@.contains(rows@[k]));
            let j = choose|j: int| 0 <= j < places@.len() && places@[j] == rows@[k];
            assert(places@[j] < decodes@.len());
        }
    }
    Rows { rows, turns }
}

proof fn lemma_turn_at(
    decodes: Seq<Decode>,
    places: Seq<usize>,
    single: bool,
    turns: Seq<Turn>,
    p: int,
    n: int,
) -> (k: int)
    requires
        is_turns(decodes, places, single, turns, places.len() as int),
        0 <= n < turns.len(),
        0 <= p < turns[n].end,
    ensures
        0 <= k <= n,
        turns[k].start <= p < turns[k].end,
    decreases n,
{
    if turns[n].start <= p {
        n
    } else {
        assert(is_turn(decodes, places, single, turns[0]));
        if n == 0 {
            0
        } else {
            assert(turns[n - 1].end == turns[n].start);
            lemma_turn_at(decodes, places, single, turns, p, n - 1)
        }
    }
}

proof fn lemma_place_of_row(
    decodes: Seq<Decode>,
    facts: Seq<Facts>,
    v: ListView,
    places: Seq<usize>,
    rows: Seq<usize>,
    t: Turn,
    p: int,
) -> (q: int)
    requires
        is_sorted_turn(decodes, facts, v, places, rows, t),
        t.end <= places.len(),
        t.end <= rows.len(),
        t.start <= p < t.end,
    ensures
        t.start <= q < t.end,
        places[q] == rows[p],
{
    let a = places.subrange(t.start as int, t.end as int);
    let b = rows.subrange(t.start as int, t.end as int);
    assert(b[p - t.start] == rows[p]);
    assert(b.contains(rows[p]));
    assert(a.contains(rows[p]));
    let q = choose|q: int| 0 <= q < a.len() && a[q] == rows[p];
    assert(places[t.start + q] == a[q]);
    t.start + q
}

proof fn lemma_row_of_place(
    decodes: Seq<Decode>,
    facts: Seq<Facts>,
    v: ListView,
    places: Seq<usize>,
    rows: Seq<usize>,
    t: Turn,
    p: int,
) -> (q: int)
    requires
        is_sorted_turn(decodes, facts, v, places, rows, t),
        t.end <= places.len(),
        t.end <= rows.len(),
        t.start <= p < t.end,
    ensures
        t.start <= q < t.end,
        rows[q] == places[p],
{
    let a = places.subrange(t.start as int, t.end as int);
    let b = rows.subrange(t.start as int, t.end as int);
    assert(a[p - t.start] == places[p]);
    assert(a.contains(places[p]));
    assert(b.contains(places[p]));
    let q = choose|q: int| 0 <= q < b.len() && b[q] == places[p];
    assert(rows[t.start + q] == b[q]);
    t.start + q
}

proof fn lemma_rows_differ(
    decodes: Seq<Decode>,
    facts: Seq<Facts>,
    v: ListView,
    places: Seq<usize>,
    rows: Seq<usize>,
    t: Turn,
    i: int,
    j: int,
)
    requires
        is_sorted_turn(decodes, facts, v, places, rows, t),
        t.end <= rows.len(),
        t.start <= i < j < t.end,
    ensures
        rows[i] != rows[j],
{
    let r = rows.subrange(t.start as int, t.end as int);
    let (a, b) = (i - t.start, j - t.start);
    assert(r[a] == rows[i] && r[b] == rows[j]);
    assert(stands_ahead(decodes, facts, v, r[a] as int, r[b] as int));
    lemma_before_is_strict(decodes, facts, v, rows[i] as int);
}

proof fn lemma_rows_are_places(
    decodes: Seq<Decode>,
    facts: Seq<Facts>,
    v: ListView,
    places: Seq<usize>,
    rows: Seq<usize>,
    turns: Seq<Turn>,
)
    requires
        is_places(places, decodes.len() as int),
        is_turns(decodes, places, v.single, turns, places.len() as int),
        rows.len() == places.len(),
        forall|k: int|
            0 <= k < turns.len() ==> is_sorted_turn(
                decodes,
                facts,
                v,
                places,
                rows,
                #[trigger] turns[k],
            ),
    ensures
        forall|x: usize| #[trigger] rows.contains(x) == places.contains(x),
        rows.no_duplicates(),
{
    let last = turns.len() - 1;
    assert forall|x: usize| #[trigger] rows.contains(x) == places.contains(x) by {
        if rows.contains(x) {
            let p = choose|p: int| 0 <= p < rows.len() && rows[p] == x;
            let k = lemma_turn_at(decodes, places, v.single, turns, p, last);
            assert(is_turn(decodes, places, v.single, turns[k]));
            let q = lemma_place_of_row(decodes, facts, v, places, rows, turns[k], p);
            assert(places[q] == x);
        }
        if places.contains(x) {
            let p = choose|p: int| 0 <= p < places.len() && places[p] == x;
            let k = lemma_turn_at(decodes, places, v.single, turns, p, last);
            assert(is_turn(decodes, places, v.single, turns[k]));
            let q = lemma_row_of_place(decodes, facts, v, places, rows, turns[k], p);
            assert(rows[q] == x);
        }
    }
    assert forall|i: int, j: int| 0 <= i < j < rows.len() implies rows[i] != rows[j] by {
        let m = lemma_turn_at(decodes, places, v.single, turns, i, last);
        let n = lemma_turn_at(decodes, places, v.single, turns, j, last);
        let (t, u) = (turns[m], turns[n]);
        assert(is_turn(decodes, places, v.single, t));
        assert(is_turn(decodes, places, v.single, u));
        if m == n {
            lemma_rows_differ(decodes, facts, v, places, rows, t, i, j);
        } else {
            if n < m {
                lemma_turn_end(turns, decodes, places, v.single, n, m);
            } else {
                lemma_turn_end(turns, decodes, places, v.single, m, n);
            }
            let p = lemma_place_of_row(decodes, facts, v, places, rows, t, i);
            let q = lemma_place_of_row(decodes, facts, v, places, rows, u, j);
            assert(p < q);
            assert(places[p] < places[q]);
        }
    }
}

proof fn lemma_before_is_strict(decodes: Seq<Decode>, facts: Seq<Facts>, v: ListView, a: int)
    ensures
        !row_before(decodes, facts, v, a, a),
{
    if facts[a].country is Some {
        lemma_text_asymmetric(facts[a].country->0@, facts[a].country->0@);
    }
}

proof fn lemma_turn_end(
    turns: Seq<Turn>,
    decodes: Seq<Decode>,
    places: Seq<usize>,
    single: bool,
    k: int,
    g: int,
)
    requires
        is_turns(decodes, places, single, turns, places.len() as int),
        0 <= k < g < turns.len(),
    ensures
        turns[k].end <= turns[g].start,
    decreases g - k,
{
    if k + 1 < g {
        lemma_turn_end(turns, decodes, places, single, k + 1, g);
        assert(is_turn(decodes, places, single, turns[k + 1]));
    }
    assert(turns[k].end == turns[k + 1].start);
}

/// A message to this station is listed whatever the filters say, and with no
/// filter on every decode is.
pub proof fn law_a_call_to_us_is_always_listed(
    decodes: Seq<Decode>,
    facts: Seq<Facts>,
    my_call: Seq<char>,
    v: ListView,
    n: nat,
    i: int,
)
    requires
        0 <= i < n <= decodes.len() <= usize::MAX,
        is_to_me(decodes[i], my_call) || (!v.cq_only && !v.new_only),
    ensures
        kept(decodes, facts, my_call, v, n).contains(i as usize),
    decreases n,
{
    let all = kept(decodes, facts, my_call, v, n);
    let rest = kept(decodes, facts, my_call, v, (n - 1) as nat);
    if i < n - 1 {
        law_a_call_to_us_is_always_listed(decodes, facts, my_call, v, (n - 1) as nat, i);
        let k = choose|k: int| 0 <= k < rest.len() && rest[k] == i as usize;
        assert(all[k] == i as usize);
    } else {
        assert(all[rest.len() as int] == i as usize);
    }
}

/// No decode is listed that the filters hold back.
pub proof fn law_filters_hold(
    decodes: Seq<Decode>,
    facts: Seq<Facts>,
    my_call: Seq<char>,
    v: ListView,
    n: nat,
    k: int,
)
    requires
        n <= decodes.len() <= usize::MAX,
        0 <= k < kept(decodes, facts, my_call, v, n).len(),
    ensures
        kept(decodes, facts, my_call, v, n)[k] < n,
        passes(
            decodes[kept(decodes, facts, my_call, v, n)[k] as int],
            facts[kept(decodes, facts, my_call, v, n)[k] as int],
            my_call,
            v,
        ),
    decreases n,
{
    if n > 0 {
        let rest = kept(decodes, facts, my_call, v, (n - 1) as nat);
        if k < rest.len() {
            law_filters_hold(decodes, facts, my_call, v, (n - 1) as nat, k);
        }
    }
}

/// `n / d` to the nearest whole number, halves away from zero.
pub open spec fn rounded(n: int, d: int) -> int {
    if n >= 0 {
        (2 * n + d) / (2 * d)
    } else {
        -((d - 2 * n) / (2 * d))
    }
}

/// True when a slot of this length is an even one.
pub open spec fn is_even_slot(slot_utc: int, period_ms: int) -> bool {
    rounded(slot_utc * 1000, period_ms) % 2 == 0
}

/// Decides whether a slot is an even one.
pub fn even_slot(slot_utc: i64, period_ms: u32) -> (r: bool)
    requires
        period_ms > 0,
    ensures
        r == is_even_slot(slot_utc as int, period_ms as int),
{
    let n: i128 = slot_utc as i128 * 1000;
    let d: i128 = period_ms as i128;
    if n >= 0 {
        ((2 * n + d) / (2 * d)) % 2 == 0
    } else {
        let q: i128 = (d - 2 * n) / (2 * d);
        assert((-q) % 2 == 0 <==> q % 2 == 0);
        q % 2 == 0
    }
}

/// A turn's heading: its parity, the colour of that, and its time.
pub fn turn_header(slot_utc: i64, period_ms: u32) -> (h: (&'static str, Ink, String))
    requires
        period_ms > 0,
    ensures
        h.0@ == if is_even_slot(slot_utc as int, period_ms as int) {
            "EVEN"@
        } else {
            "ODD"@
        },
        h.1 == if is_even_slot(slot_utc as int, period_ms as int) {
            Ink::Cyan
        } else {
            Ink::Yellow
        },
        h.2@ == hms_text(slot_utc as int) + " UTC"@,
{
    let mut t = hms_str(slot_utc);
    t.append(" UTC");
    if even_slot(slot_utc, period_ms) {
        ("EVEN", Ink::Cyan, t)
    } else {
        ("ODD", Ink::Yellow, t)
    }
}

/// Who sent a decode; a word for why where nobody is named.
pub open spec fn sender(d: Decode) -> Seq<char> {
    match d.from {
        Some(f) => f@,
        None => if d.free_text {
            "TEXT"@
        } else {
            "?"@
        },
    }
}

/// Who sent a decode.
pub fn who(d: &Decode) -> (r: String)
    ensures
        r@ == sender(*d),
{
    match &d.from {
        Some(f) => f.clone(),
        None => if d.free_text {
            "TEXT".to_owned()
        } else {
            "?".to_owned()
        },
    }
}

/// The badge for what working a station would be worth.
pub fn badge(h: Option<Highlight>) -> (b: Option<(&'static str, Ink)>)
    ensures
        match h {
            Some(Highlight::NewDxcc) => b matches Some((t, c)) && t@ == "DXCC"@ && c == Ink::Pink,
            Some(Highlight::NewDxccBand) => b matches Some((t, c)) && t@ == "BAND"@ && c
                == Ink::Yellow,
            Some(Highlight::NewGrid) => b matches Some((t, c)) && t@ == "GRID"@ && c == Ink::Cyan,
            Some(Highlight::NewCall) => b matches Some((t, c)) && t@ == "NEW"@ && c == Ink::CyanDim,
            Some(Highlight::Dupe) => b matches Some((t, c)) && t@ == "DUPE"@ && c == Ink::Gray(85),
            None => b is None,
        },
{
    match h {
        Some(Highlight::NewDxcc) => Some(("DXCC", Ink::Pink)),
        Some(Highlight::NewDxccBand) => Some(("BAND", Ink::Yellow)),
        Some(Highlight::NewGrid) => Some(("GRID", Ink::Cyan)),
        Some(Highlight::NewCall) => Some(("NEW", Ink::CyanDim)),
        Some(Highlight::Dupe) => Some(("DUPE", Ink::Gray(85))),
        None => None,
    }
}

/// The colours of a row: callsign, reply button, and the bar at its left.
#[derive(Clone, Copy, PartialEq, Eq, Structural, Debug)]
pub struct RowInks {
    pub call: Ink,
    pub reply: Ink,
    pub bar: Ink,
    /// The bar is drawn wide.
    pub wide: bool,
}

/// How a row is coloured: a message to this station stands out most, then a
/// CQ it may answer, most of all one that names it.
pub fn row_inks(d: &Decode, f: &Facts, my_call: &str) -> (r: RowInks)
    ensures
        r.call == if is_to_me(*d, my_call@) {
            Ink::Yellow
        } else if d.from is None || f.dupe {
            Ink::Gray(105)
        } else if f.cq {
            Ink::Green
        } else {
            Ink::TextStrong
        },
        r.reply == if is_to_me(*d, my_call@) {
            Ink::Yellow
        } else if f.cq {
            Ink::Green
        } else {
            Ink::Cyan
        },
        r.bar == if is_to_me(*d, my_call@) {
            Ink::Yellow
        } else if f.cq {
            Ink::Pink
        } else {
            Ink::CyanDim
        },
        r.wide == (is_to_me(*d, my_call@) || (f.cq && d.cq_to is Some)),
{
    let mine = to_me(d, my_call);
    let call = if mine {
        Ink::Yellow
    } else if d.from.is_none() || f.dupe {
        Ink::Gray(105)
    } else if f.cq {
        Ink::Green
    } else {
        Ink::TextStrong
    };
    let reply = if mine {
        Ink::Yellow
    } else if f.cq {
        Ink::Green
    } else {
        Ink::Cyan
    };
    let bar = if mine {
        Ink::Yellow
    } else if f.cq {
        Ink::Pink
    } else {
        Ink::CyanDim
    };
    RowInks { call, reply, bar, wide: mine || (f.cq && d.cq_to.is_some()) }
}

/// The parts of a list that are not empty.
pub open spec fn nonempty(parts: Seq<Seq<char>>) -> Seq<Seq<char>> {
    parts.filter(|p: Seq<char>| p.len() > 0)
}

/// The dim tail of a narrow row: country, locator and distance, as far as they
/// are known.
pub fn row_tail(country: &str, grid: &str, dist: &str) -> (t: String)
    ensures
        t@ == joined(nonempty(seq![country@, grid@, dist@]), " · "@),
{
    let mut parts: Vec<String> = Vec::new();
    if !country.is_empty() {
        parts.push(country.to_owned());
    }
    if !grid.is_empty() {
        parts.push(grid.to_owned());
    }
    if !dist.is_empty() {
        parts.push(dist.to_owned());
    }
    proof {
        let all = seq![country@, grid@, dist@];
        let keep = |p: Seq<char>| p.len() > 0;
        reveal(Seq::filter);
        let two = seq![country@, grid@];
        let one = seq![country@];
        assert(all.drop_last() =~= two);
        assert(two.drop_last() =~= one);
        assert(one.drop_last() =~= Seq::<Seq<char>>::empty());
        assert(Seq::<Seq<char>>::empty().filter(keep) =~= Seq::<Seq<char>>::empty());
        assert(one.filter(keep) =~= if country@.len() > 0 {
            one
        } else {
            Seq::empty()
        });
        assert(two.filter(keep) == if grid@.len() > 0 {
            one.filter(keep).push(grid@)
        } else {
            one.filter(keep)
        });
        assert(all.filter(keep) == if dist@.len() > 0 {
            two.filter(keep).push(dist@)
        } else {
            two.filter(keep)
        });
        assert(texts(parts@) =~= all.filter(keep));
        assert(nonempty(all) == all.filter(keep));
    }
    join(&parts, " · ")
}

/// True when a station stands in the queue, whatever the case of its call.
pub open spec fn is_queued(queue: Seq<String>, d: Decode) -> bool {
    d.from is Some && exists|i: int|
        0 <= i < queue.len() && same_ignoring_case((#[trigger] queue[i])@, d.from->0@)
}

/// Decides whether a station stands in the queue.
pub fn queued(queue: &Vec<String>, d: &Decode) -> (r: bool)
    ensures
        r == is_queued(queue@, *d),
{
    match &d.from {
        None => false,
        Some(from) => {
            let mut i: usize = 0;
            while i < queue.len()
                invariant
                    i <= queue@.len(),
                    d.from == Some(*from),
                    forall|j: int|
                        0 <= j < i ==> !same_ignoring_case((#[trigger] queue@[j])@, from@),
                decreases queue@.len() - i,
            {
                if eq_ignore_case(queue[i].as_str(), from.as_str()) {
                    return true;
                }
                i = i + 1;
            }
            false
        },
    }
}

/// What becomes of the station previewed on the map.
#[derive(Debug)]
pub enum Preview {
    Keep,
    Clear,
    Show(String),
}

/// What was pressed on a row, the button ahead of the row itself.
#[derive(Clone, Copy, PartialEq, Eq, Structural, Debug)]
pub enum RowPress {
    Reply,
    Queue,
    Body,
}

/// What a press asks for.
#[derive(Debug)]
pub struct RowEffect {
    pub command: Option<Command>,
    pub preview: Preview,
    /// Take a phone to the pane of the exchange.
    pub to_qso_pane: bool,
}

/// True of the call that answers a decode. A station that neither calls CQ nor
/// calls this one is waited for rather than barged in on.
pub open spec fn is_call_to(c: Call, d: Decode, my_call: Seq<char>) -> bool {
    &&& d.from == Some(c.from)
    &&& c.grid == d.grid
    &&& c.snr == d.snr_db
    &&& c.audio_millihz == d.audio_millihz
    &&& c.wait_for_cq == (!d.is_cq && !is_to_me(d, my_call))
}

fn call_to(d: &Decode, from: &String, my_call: &str) -> (c: Call)
    requires
        d.from == Some(*from),
    ensures
        is_call_to(c, *d, my_call@),
{
    Call {
        from: from.clone(),
        grid: copy_text(&d.grid),
        snr: d.snr_db,
        audio_millihz: d.audio_millihz,
        wait_for_cq: !d.is_cq && !to_me(d, my_call),
    }
}

/// What a press on a row does. Replying starts an exchange; the queue button
/// puts the station in line or takes it out again; the row itself previews the
/// station and moves the transmit tone there, unless something else places the
/// tone. Nothing is sent to a station that is not named.
pub fn press_row(
    press: RowPress,
    d: &Decode,
    my_call: &str,
    in_queue: bool,
    auto_tx: bool,
    hold_tx: bool,
    located: bool,
) -> (e: RowEffect)
    ensures
        e.to_qso_pane == (press == RowPress::Reply),
        match press {
            RowPress::Reply => {
                &&& e.preview is Clear
                &&& match e.command {
                    Some(Command::DigiStartQso(c)) => is_call_to(c, *d, my_call@),
                    None => d.from is None,
                    _ => false,
                }
            },
            RowPress::Queue => {
                &&& e.preview is Keep
                &&& match e.command {
                    Some(Command::DigiQueueRemove(s)) => in_queue && d.from == Some(s),
                    Some(Command::DigiQueueAdd(c)) => !in_queue && is_call_to(c, *d, my_call@),
                    None => d.from is None,
                    _ => false,
                }
            },
            RowPress::Body => {
                &&& match e.preview {
                    Preview::Show(s) => located && s@ == sender(*d),
                    Preview::Clear => !located,
                    Preview::Keep => false,
                }
                &&& match e.command {
                    Some(Command::SetDigiAudioFreq(hz)) => !auto_tx && !hold_tx && hz
                        == d.audio_millihz,
                    None => auto_tx || hold_tx,
                    _ => false,
                }
            },
        },
{
    match press {
        RowPress::Reply => {
            let command = match &d.from {
                Some(from) => Some(Command::DigiStartQso(call_to(d, from, my_call))),
                None => None,
            };
            RowEffect { command, preview: Preview::Clear, to_qso_pane: true }
        },
        RowPress::Queue => {
            let command = match &d.from {
                Some(from) => if in_queue {
                    Some(Command::DigiQueueRemove(from.clone()))
                } else {
                    Some(Command::DigiQueueAdd(call_to(d, from, my_call)))
                },
                None => None,
            };
            RowEffect { command, preview: Preview::Keep, to_qso_pane: false }
        },
        RowPress::Body => {
            let command = if !auto_tx && !hold_tx {
                Some(Command::SetDigiAudioFreq(d.audio_millihz as i64))
            } else {
                None
            };
            let preview = if located {
                Preview::Show(who(d))
            } else {
                Preview::Clear
            };
            RowEffect { command, preview, to_qso_pane: false }
        },
    }
}

/// What lies behind a row.
#[derive(Clone, Copy, PartialEq, Eq, Structural, Debug)]
pub enum Fill {
    ToMe,
    Cq,
    Plain,
}

/// The box around a row.
#[derive(Clone, Copy, PartialEq, Eq, Structural, Debug)]
pub enum Outline {
    /// Ties the row to its marker on the map.
    Preview,
    /// A message to this station.
    ToMe,
    /// Under the pointer.
    Hovered,
}

/// How a row is set off from its neighbours, and the colours of its message
/// and its country.
#[derive(Clone, Copy, PartialEq, Eq, Structural, Debug)]
pub struct RowFrame {
    pub fill: Fill,
    pub outline: Option<Outline>,
    pub message: Ink,
    pub country: Ink,
}

/// True of the decode whose sender is previewed on the map.
pub open spec fn is_previewed(d: Decode, preview: Option<Seq<char>>) -> bool {
    match (d.from, preview) {
        (Some(f), Some(p)) => f@ == p,
        _ => false,
    }
}

/// How a row is set off. A contact already made fades back, so that the new
/// ones carry the eye.
pub fn row_frame(
    d: &Decode,
    f: &Facts,
    my_call: &str,
    preview: Option<&str>,
    hovered: bool,
) -> (r: RowFrame)
    ensures
        r.fill == if is_to_me(*d, my_call@) {
            Fill::ToMe
        } else if f.cq {
            Fill::Cq
        } else {
            Fill::Plain
        },
        r.outline == if is_previewed(
            *d,
            match preview {
                Some(p) => Some(p@),
                None => None,
            },
        ) {
            Some(Outline::Preview)
        } else if is_to_me(*d, my_call@) {
            Some(Outline::ToMe)
        } else if hovered {
            Some(Outline::Hovered)
        } else {
            None
        },
        r.message == if f.dupe {
            Ink::Gray(95)
        } else {
            Ink::Text
        },
        r.country == if f.dupe {
            Ink::Gray(90)
        } else {
            Ink::Gray(155)
        },
{
    let mine = to_me(d, my_call);
    let previewed = match (&d.from, preview) {
        (Some(from), Some(p)) => same(from.as_str(), p),
        _ => false,
    };
    RowFrame {
        fill: if mine {
            Fill::ToMe
        } else if f.cq {
            Fill::Cq
        } else {
            Fill::Plain
        },
        outline: if previewed {
            Some(Outline::Preview)
        } else if mine {
            Some(Outline::ToMe)
        } else if hovered {
            Some(Outline::Hovered)
        } else {
            None
        },
        message: if f.dupe {
            Ink::Gray(95)
        } else {
            Ink::Text
        },
        country: if f.dupe {
            Ink::Gray(90)
        } else {
            Ink::Gray(155)
        },
    }
}

/// How much of a row its width has room for.
#[derive(Clone, Copy, PartialEq, Eq, Structural, Debug)]
pub struct RowRoom {
    /// The row takes two lines.
    pub narrow: bool,
    /// The country is spelled out.
    pub country: bool,
}

/// How a row of this width, in thousandths of a point, is laid out.
pub fn row_room(width: u64) -> (r: RowRoom)
    ensures
        r == (RowRoom { narrow: width < 600_000, country: width >= 820_000 }),
{
    RowRoom { narrow: width < 600_000, country: width >= 820_000 }
}

/// A spot as far as the map beside the list goes by it.
#[derive(Debug)]
pub struct MapSpot {
    /// The mode as the feed announces it.
    pub mode: String,
    /// Of a kind that is shown.
    pub visible: bool,
    /// It says where it is.
    pub located: bool,
}

/// The places of the spots that the map shows, in order.
pub open spec fn shown_spots(spots: Seq<MapSpot>, upto: nat) -> Seq<usize>
    decreases upto,
{
    if upto == 0 {
        Seq::empty()
    } else {
        let rest = shown_spots(spots, (upto - 1) as nat);
        let s = spots[upto - 1];
        if is_worked_mode(s.mode@) && s.visible && s.located {
            rest.push((upto - 1) as usize)
        } else {
            rest
        }
    }
}

/// The spots that the map beside the list shows: those announced in a mode
/// that the panel works, whatever feed they came from.
pub fn map_spots(spots: &Vec<MapSpot>) -> (r: Vec<usize>)
    ensures
        r@ == shown_spots(spots@, spots@.len()),
{
    let mut r: Vec<usize> = Vec::new();
    let mut i: usize = 0;
    while i < spots.len()
        invariant
            i <= spots@.len(),
            r@ == shown_spots(spots@, i as nat),
        decreases spots@.len() - i,
    {
        let s = &spots[i];
        if is_ft8_or_ft4(s.mode.as_str()) && s.visible && s.located {
            r.push(i);
        }
        i = i + 1;
    }
    r
}

/// The face and the hint of the chip that queues a station.
pub fn queue_chip(queued: bool) -> (r: (&'static str, &'static str))
    ensures
        (r.0@, r.1@) == if queued {
            ("＋"@, "Queued — click to remove"@)
        } else {
            ("+"@, "Work this station after the current one"@)
        },
{
    if queued {
        ("＋", "Queued — click to remove")
    } else {
        ("+", "Work this station after the current one")
    }
}

/// The two chips that say who places the transmit tone.
#[derive(Clone, Copy, PartialEq, Eq, Structural, Debug)]
pub enum ToneChip {
    Auto,
    Hold,
}

/// The two choices after a press. A held tone is moved by nothing, so the
/// automatic choice cannot be changed under a hold.
pub open spec fn tone_choices(auto: bool, hold: bool, chip: ToneChip) -> (bool, bool) {
    match chip {
        ToneChip::Auto => (auto != !hold, hold),
        ToneChip::Hold => (auto, !hold),
    }
}

/// Presses one of the two chips, and sends the settings where that changed
/// one.
pub fn press_tone_chip(n: &mut QsoFigures, chip: ToneChip) -> (c: Option<Command>)
    ensures
        *final(n) == ({
            let (auto, hold) = tone_choices(old(n).auto_tx_freq, old(n).hold_tx_freq, chip);
            QsoFigures { auto_tx_freq: auto, hold_tx_freq: hold, ..*old(n) }
        }),
        c == if chip == ToneChip::Auto && old(n).hold_tx_freq {
            None
        } else {
            Some(
                Command::SetDigiConfig(
                    DigiConfig::Tone(final(n).auto_tx_freq, final(n).hold_tx_freq),
                ),
            )
        },
{
    match chip {
        ToneChip::Auto => {
            if n.hold_tx_freq {
                return None;
            }
            n.auto_tx_freq = !n.auto_tx_freq;
        },
        ToneChip::Hold => {
            n.hold_tx_freq = !n.hold_tx_freq;
        },
    }
    Some(Command::SetDigiConfig(DigiConfig::Tone(n.auto_tx_freq, n.hold_tx_freq)))
}

/// Lifting a hold brings back the automatic choice as it was left.
pub proof fn law_a_hold_keeps_the_choice(auto: bool)
    ensures
        tone_choices(auto, true, ToneChip::Auto) == (auto, true),
        tone_choices(tone_choices(auto, false, ToneChip::Hold).0, true, ToneChip::Hold) == (
            auto,
            false,
        ),
{
}

/// The lowest and the highest transmit tone, in thousandths of a hertz.
pub const TONE_MIN_MILLIHZ: u32 = 200_000;

pub const TONE_MAX_MILLIHZ: u32 = 3_500_000;

/// A tone held to the passband.
pub open spec fn clamped(v: int) -> int {
    if v < TONE_MIN_MILLIHZ {
        TONE_MIN_MILLIHZ as int
    } else if v > TONE_MAX_MILLIHZ {
        TONE_MAX_MILLIHZ as int
    } else {
        v
    }
}

fn clamp(v: i64) -> (r: u32)
    ensures
        r == clamped(v as int),
{
    if v < TONE_MIN_MILLIHZ as i64 {
        TONE_MIN_MILLIHZ
    } else if v > TONE_MAX_MILLIHZ as i64 {
        TONE_MAX_MILLIHZ
    } else {
        v as u32
    }
}

/// The next round figure below a tone: the last multiple of 10 Hz under it.
pub open spec fn round_below(v: int) -> int {
    (v + 9_999) / 10_000 * 10_000 - 10_000
}

/// The next round figure above a tone: the first multiple of 10 Hz over it.
pub open spec fn round_above(v: int) -> int {
    v / 10_000 * 10_000 + 10_000
}

/// The tone one step down.
pub fn step_down(tone: u32) -> (r: u32)
    ensures
        r == clamped(round_below(tone as int)),
{
    clamp((tone as i64 + 9_999) / 10_000 * 10_000 - 10_000)
}

/// The tone one step up.
pub fn step_up(tone: u32) -> (r: u32)
    ensures
        r == clamped(round_above(tone as int)),
{
    clamp(tone as i64 / 10_000 * 10_000 + 10_000)
}

/// The steps land on round figures, the nearest ones on either side of the
/// tone, wherever it sits.
pub proof fn law_steps_land_on_round_figures(v: int)
    requires
        v >= 0,
    ensures
        round_below(v) % 10_000 == 0,
        round_above(v) % 10_000 == 0,
        v - 10_000 <= round_below(v) < v < round_above(v) <= v + 10_000,
{
}

/// What a figure typed into the tone's box sends: nothing where it could not
/// be read, or where it is within half a hertz of the tone in use.
pub fn typed_tone(typed: Option<i64>, tone: u32) -> (r: Option<u32>)
    ensures
        match typed {
            Some(v) => if -500 < clamped(v as int) - tone < 500 {
                r is None
            } else {
                r == Some(clamped(v as int) as u32)
            },
            None => r is None,
        },
{
    match typed {
        Some(v) => {
            let c: u32 = clamp(v);
            let apart: i64 = c as i64 - tone as i64;
            if -500 < apart && apart < 500 {
                None
            } else {
                Some(c)
            }
        },
        None => None,
    }
}

/// In a run that is sorted by distance, or by country, the decodes that have
/// none stand last, whichever way it is sorted.
pub proof fn law_unknown_stands_last(
    decodes: Seq<Decode>,
    facts: Seq<Facts>,
    v: ListView,
    places: Seq<usize>,
    rows: Seq<usize>,
    t: Turn,
    i: int,
    j: int,
)
    requires
        t.start <= t.end <= rows.len(),
        is_sorted_turn(decodes, facts, v, places, rows, t),
        t.start <= i < j < t.end,
    ensures
        v.sort == DecodeSort::Distance && facts[rows[i] as int].dist_rank is None
            ==> facts[rows[j] as int].dist_rank is None,
        v.sort == DecodeSort::Country && facts[rows[i] as int].country is None
            ==> facts[rows[j] as int].country is None,
{
    let r = rows.subrange(t.start as int, t.end as int);
    let a = i - t.start;
    let b = j - t.start;
    assert(r[a] == rows[i] && r[b] == rows[j]);
    assert(0 <= a < b < r.len());
    assert(stands_ahead(decodes, facts, v, r[a] as int, r[b] as int));
}

/// A decode is listed exactly where the filters let it: with "CQ only" it has to
/// be a CQ that may be answered, with "New only" it has to be new in some way,
/// and a message to this station is listed in any case.
pub proof fn law_the_filters_decide(
    decodes: Seq<Decode>,
    facts: Seq<Facts>,
    my_call: Seq<char>,
    v: ListView,
    n: nat,
    i: int,
)
    requires
        0 <= i < n <= decodes.len() <= usize::MAX,
    ensures
        kept(decodes, facts, my_call, v, n).contains(i as usize) == ((my_call.len() > 0 && decodes[i].to is Some && decodes[i].to->0@ == my_call) || ((
                v.cq_only ==> facts[i].cq) && (v.new_only ==> facts[i].is_new))),
    decreases n,
{
    let all = kept(decodes, facts, my_call, v, n);
    let rest = kept(decodes, facts, my_call, v, (n - 1) as nat);
    if i < n - 1 {
        law_the_filters_decide(decodes, facts, my_call, v, (n - 1) as nat, i);
        if rest.contains(i as usize) {
            let k = choose|k: int| 0 <= k < rest.len() && rest[k] == i as usize;
            assert(all[k] == i as usize);
        }
        if all.contains(i as usize) {
            let k = choose|k: int| 0 <= k < all.len() && all[k] == i as usize;
            assert(rest[k] == i as usize);
        }
    } else {
        if all.contains(i as usize) {
            let k = choose|k: int| 0 <= k < all.len() && all[k] == i as usize;
            if k < rest.len() {
                law_filters_hold(decodes, facts, my_call, v, (n - 1) as nat, k);
            }
        }
        if passes(decodes[i], facts[i], my_call, v) {
            assert(all[rest.len() as int] == i as usize);
        }
    }
}

/// Two decodes of one run stand in the order that was chosen, and as they came
/// where they tie: by strength, by distance or by the name of the country, each
/// either way round, or as they came altogether.
pub proof fn law_a_run_is_in_the_chosen_order(
    decodes: Seq<Decode>,
    facts: Seq<Facts>,
    v: ListView,
    places: Seq<usize>,
    rows: Seq<usize>,
    t: Turn,
    i: int,
    j: int,
)
    requires
        t.start <= t.end <= rows.len(),
        is_sorted_turn(decodes, facts, v, places, rows, t),
        t.start <= i < j < t.end,
    ensures
        ({
            let (a, b) = (rows[i] as int, rows[j] as int);
            &&& v.sort == DecodeSort::Arrival ==> a < b
            &&& v.sort == DecodeSort::Signal && v.desc ==> decodes[a].snr_db >= decodes[b].snr_db
            &&& v.sort == DecodeSort::Signal && !v.desc ==> decodes[a].snr_db <= decodes[b].snr_db
            &&& v.sort == DecodeSort::Signal && decodes[a].snr_db == decodes[b].snr_db ==> a < b
            &&& v.sort == DecodeSort::Distance && facts[b].dist_rank is Some
                ==> facts[a].dist_rank is Some && (if v.desc {
                facts[a].dist_rank->0 >= facts[b].dist_rank->0
            } else {
                facts[a].dist_rank->0 <= facts[b].dist_rank->0
            })
            &&& v.sort == DecodeSort::Distance && facts[a].dist_rank == facts[b].dist_rank ==> a < b
            &&& v.sort == DecodeSort::Country && facts[b].country is Some
                ==> facts[a].country is Some && (if v.desc {
                !text_less(facts[a].country->0@, facts[b].country->0@)
            } else {
                !text_less(facts[b].country->0@, facts[a].country->0@)
            })
            &&& v.sort == DecodeSort::Country && facts[a].country is None
                && facts[b].country is None ==> a < b
        }),
{
    let r = rows.subrange(t.start as int, t.end as int);
    let a = i - t.start;
    let b = j - t.start;
    assert(r[a] == rows[i] && r[b] == rows[j]);
    assert(0 <= a < b < r.len());
    assert(stands_ahead(decodes, facts, v, r[a] as int, r[b] as int));
    let (x, y) = (rows[i] as int, rows[j] as int);
    if facts[x].country is Some && facts[y].country is Some {
        lemma_text_asymmetric(facts[x].country->0@, facts[y].country->0@);
    }
}

/// The runs of the list follow each other without a gap; in the single list
/// there is but one, else each holds the decodes of one slot and the next one
/// starts where the slot changes.
pub proof fn law_a_run_is_one_slot(
    decodes: Seq<Decode>,
    places: Seq<usize>,
    single: bool,
    turns: Seq<Turn>,
    k: int,
    i: int,
)
    requires
        is_turns(decodes, places, single, turns, places.len() as int),
        0 <= k < turns.len(),
        turns[k].start <= i < turns[k].end,
    ensures
        turns[k].end <= places.len(),
        turns[0].start == 0 && turns.last().end == places.len(),
        k + 1 < turns.len() ==> turns[k].end == turns[k + 1].start,
        single ==> turns.len() == 1,
        !single ==> decodes[places[i] as int].slot_utc
            == decodes[places[turns[k].start as int] as int].slot_utc,
        !single && k + 1 < turns.len() ==> decodes[places[i] as int].slot_utc
            != decodes[places[turns[k + 1].start as int] as int].slot_utc,
{
    assert(is_turn(decodes, places, single, turns[k]));
    if k + 1 < turns.len() {
        assert(turns[k].end == turns[k + 1].start);
        assert(is_turn(decodes, places, single, turns[k + 1]));
    }
    if single && turns.len() > 1 {
        assert(is_turn(decodes, places, single, turns[0]));
        assert(is_turn(decodes, places, single, turns[1]));
        assert(turns[0].end == turns[1].start);
    }
}

/// A call names the station that was decoded, with its own locator, report and
/// tone. A station that calls CQ, or calls this one, is answered at once; any
/// other is waited for.
pub proof fn law_a_call_is_to_the_station_decoded(c: Call, d: Decode, my_call: Seq<char>)
    requires
        is_call_to(c, d, my_call),
    ensures
        d.from is Some && d.from->0 == c.from,
        c.grid == d.grid,
        c.snr == d.snr_db,
        c.audio_millihz == d.audio_millihz,
        d.is_cq ==> !c.wait_for_cq,
        my_call.len() > 0 && d.to is Some && d.to->0@ == my_call ==> !c.wait_for_cq,
        !d.is_cq && (d.to is None || d.to->0@ != my_call) ==> c.wait_for_cq,
{
}

/// Slots alternate: the one that starts nearest to a whole number of periods is
/// even exactly where that number is.
pub proof fn law_slots_alternate(slot_utc: int, period_ms: int, k: int)
    requires
        period_ms > 0,
        -period_ms < 2 * (slot_utc * 1000 - k * period_ms) < period_ms,
    ensures
        is_even_slot(slot_utc, period_ms) == (k % 2 == 0),
{
    let n = slot_utc * 1000;
    if n >= 0 {
        assert((2 * n + period_ms) / (2 * period_ms) == k) by (nonlinear_arith)
            requires
                period_ms > 0,
                -period_ms < 2 * (n - k * period_ms) < period_ms,
        ;
    } else {
        let m = -k;
        assert((period_ms - 2 * n) / (2 * period_ms) == m) by (nonlinear_arith)
            requires
                period_ms > 0,
                m == -k,
                -period_ms < 2 * (n - k * period_ms) < period_ms,
        ;
    }
}

/// The chip of the automatic tone turns it on and off while no hold is on, and
/// does nothing under one; the chip of the hold turns that on and off and leaves
/// the automatic choice.
pub proof fn law_tone_chips_toggle(auto: bool, hold: bool)
    ensures
        tone_choices(auto, false, ToneChip::Auto) == (!auto, false),
        tone_choices(auto, true, ToneChip::Auto) == (auto, true),
        tone_choices(auto, hold, ToneChip::Hold) == (auto, !hold),
{
}

/// A tone within the passband is taken as it is, one outside it to the nearer
/// edge, 200 or 3500 Hz.
pub proof fn law_a_tone_stays_in_the_passband(v: int)
    ensures
        200_000 <= clamped(v) <= 3_500_000,
        200_000 <= v <= 3_500_000 ==> clamped(v) == v,
        v < 200_000 ==> clamped(v) == 200_000,
        v > 3_500_000 ==> clamped(v) == 3_500_000,
{
}

/// Another sort chip sorts from the strongest or farthest down, countries from
/// A on; the active one only turns the order round.
pub proof fn law_a_sort_chip_starts_at_the_top(v: ListView, m: DecodeSort)
    ensures
        pressed(v, m).sort == m,
        v.sort != m && (m == DecodeSort::Signal || m == DecodeSort::Distance) ==> pressed(v, m).desc,
        v.sort != m && m == DecodeSort::Country ==> !pressed(v, m).desc,
        v.sort == m && m != DecodeSort::Arrival ==> pressed(v, m).desc != v.desc,
{
}

/// A station stands in the queue where a call there is its own, whatever the
/// case; a decode that names nobody does not.
pub proof fn law_the_queue_goes_by_the_call(queue: Seq<String>, d: Decode, i: int)
    ensures
        d.from is None ==> !is_queued(queue, d),
        d.from is Some && 0 <= i < queue.len() && same_ignoring_case(queue[i]@, d.from->0@)
            ==> is_queued(queue, d),
        d.from is Some && (forall|k: int|
            0 <= k < queue.len() ==> !same_ignoring_case((#[trigger] queue[k])@, d.from->0@))
            ==> !is_queued(queue, d),
{
}

/// The map shows a spot exactly where its mode is one that the panel works, its
/// kind is shown and it says where it is.
pub proof fn law_the_map_shows_located_spots(spots: Seq<MapSpot>, n: nat, i: int)
    requires
        0 <= i < n <= spots.len() <= usize::MAX,
    ensures
        shown_spots(spots, n).contains(i as usize) == (spots[i].visible && spots[i].located && (
        same_ignoring_case(trim(spots[i].mode@), "FT8"@) || same_ignoring_case(
            trim(spots[i].mode@),
            "FT4"@,
        ) || same_ignoring_case(trim(spots[i].mode@), "FT8-4"@) || same_ignoring_case(
            trim(spots[i].mode@),
            "FT2"@,
        ))),
        forall|k: int|
            0 <= k < shown_spots(spots, n).len() ==> #[trigger] shown_spots(spots, n)[k] < n,
    decreases n,
{
    let all = shown_spots(spots, n);
    let rest = shown_spots(spots, (n - 1) as nat);
    if n > 1 {
        law_the_map_shows_located_spots(spots, (n - 1) as nat, if i < n - 1 {
            i
        } else {
            0
        });
    }
    if i < n - 1 {
        if rest.contains(i as usize) {
            let k = choose|k: int| 0 <= k < rest.len() && rest[k] == i as usize;
            assert(all[k] == i as usize);
        }
        if all.contains(i as usize) {
            let k = choose|k: int| 0 <= k < all.len() && all[k] == i as usize;
            assert(rest[k] == i as usize);
        }
    } else {
        if all.contains(i as usize) {
            let k = choose|k: int| 0 <= k < all.len() && all[k] == i as usize;
            if k < rest.len() {
                assert(rest[k] < n - 1);
            }
        }
        if all.len() > rest.len() {
            assert(all[rest.len() as int] == i as usize);
        }
    }
}

/// The sender of a decode is the station it names; one that names none is
/// marked as text or as unknown. Only a row of the previewed station is framed
/// as such.
pub proof fn law_a_row_shows_its_sender(d: Decode, p: Seq<char>)
    ensures
        d.from is Some ==> sender(d) == d.from->0@,
        d.from is None && d.free_text ==> sender(d) == "TEXT"@,
        d.from is None && !d.free_text ==> sender(d) == "?"@,
        is_previewed(d, Some(p)) == (d.from is Some && d.from->0@ == p),
        !is_previewed(d, None),
{
}

/// The tail of a row names country, locator and distance in that order, and
/// leaves out what is empty.
pub proof fn law_a_tail_leaves_out_what_is_empty(a: Seq<char>, b: Seq<char>, c: Seq<char>)
    ensures
        nonempty(seq![a, b, c]) == (if a.len() > 0 {
            seq![a]
        } else {
            Seq::empty()
        }) + (if b.len() > 0 {
            seq![b]
        } else {
            Seq::empty()
        }) + (if c.len() > 0 {
            seq![c]
        } else {
            Seq::empty()
        }),
{
    let keep = |p: Seq<char>| p.len() > 0;
    reveal(Seq::filter);
    let all = seq![a, b, c];
    let two = seq![a, b];
    let one = seq![a];
    assert(all.drop_last() =~= two);
    assert(two.drop_last() =~= one);
    assert(one.drop_last() =~= Seq::<Seq<char>>::empty());
    assert(Seq::<Seq<char>>::empty().filter(keep) =~= Seq::<Seq<char>>::empty());
    assert(one.filter(keep) =~= if a.len() > 0 {
        one
    } else {
        Seq::empty()
    });
    assert(two.filter(keep) == if b.len() > 0 {
        one.filter(keep).push(b)
    } else {
        one.filter(keep)
    });
    assert(all.filter(keep) == if c.len() > 0 {
        two.filter(keep).push(c)
    } else {
        two.filter(keep)
    });
    assert(nonempty(all) == all.filter(keep));
    assert(nonempty(all) =~= (if a.len() > 0 {
        seq![a]
    } else {
        Seq::empty()
    }) + (if b.len() > 0 {
        seq![b]
    } else {
        Seq::empty()
    }) + (if c.len() > 0 {
        seq![c]
    } else {
        Seq::empty()
    }));
}

/// The modes that the panel works are four, in any letter case and with white
/// space round them.
pub proof fn law_the_worked_modes(mode: Seq<char>)
    ensures
        same_ignoring_case(trim(mode), "FT8"@) ==> is_worked_mode(mode),
        same_ignoring_case(trim(mode), "FT4"@) ==> is_worked_mode(mode),
        same_ignoring_case(trim(mode), "FT8-4"@) ==> is_worked_mode(mode),
        same_ignoring_case(trim(mode), "FT2"@) ==> is_worked_mode(mode),
        is_worked_mode(mode) ==> trim(mode).len() == 3 || trim(mode).len() == 5,
        !same_ignoring_case(trim(mode), "FT8"@) && !same_ignoring_case(trim(mode), "FT4"@)
            && !same_ignoring_case(trim(mode), "FT8-4"@) && !same_ignoring_case(trim(mode), "FT2"@)
            ==> !is_worked_mode(mode),
{
    reveal_strlit("FT8");
    reveal_strlit("FT4");
    reveal_strlit("FT8-4");
    reveal_strlit("FT2");
    let t = trim(mode);
    crate::text::law_case_is_ignored_letter_by_letter(t, "FT8"@);
    crate::text::law_case_is_ignored_letter_by_letter(t, "FT4"@);
    crate::text::law_case_is_ignored_letter_by_letter(t, "FT8-4"@);
    crate::text::law_case_is_ignored_letter_by_letter(t, "FT2"@);
}

/// A message is to this station where it is addressed to its callsign; a station
/// without one is never called.
pub proof fn law_a_message_to_us_names_us(d: Decode, my_call: Seq<char>)
    ensures
        my_call.len() == 0 ==> !is_to_me(d, my_call),
        d.to is None ==> !is_to_me(d, my_call),
        my_call.len() > 0 && d.to is Some ==> (is_to_me(d, my_call) <==> d.to->0@ == my_call),
{
}

/// Rounding goes to the nearest whole number, and half way away from zero.
pub proof fn law_halves_round_away_from_zero(n: int, d: int)
    requires
        d > 0,
    ensures
        -d <= 2 * (rounded(n, d) * d - n) <= d,
        n >= 0 ==> 2 * (rounded(n, d) * d - n) > -d,
        n < 0 ==> 2 * (rounded(n, d) * d - n) < d,
{
    if n >= 0 {
        let q = (2 * n + d) / (2 * d);
        assert(q * (2 * d) <= 2 * n + d < (q + 1) * (2 * d)) by (nonlinear_arith)
            requires
                q == (2 * n + d) / (2 * d),
                d > 0,
        ;
        assert(q * (2 * d) == 2 * (q * d) && (q + 1) * (2 * d) == 2 * (q * d) + 2 * d)
            by (nonlinear_arith);
    } else {
        let q = (d - 2 * n) / (2 * d);
        assert(q * (2 * d) <= d - 2 * n < (q + 1) * (2 * d)) by (nonlinear_arith)
            requires
                q == (d - 2 * n) / (2 * d),
                d > 0,
        ;
        assert(q * (2 * d) == 2 * (q * d) && (q + 1) * (2 * d) == 2 * (q * d) + 2 * d && (-q) * d
            == -(q * d)) by (nonlinear_arith);
    }
}

} // verus!
