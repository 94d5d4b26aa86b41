//! The cached newest-first ordering and day grouping of the log.

use vstd::prelude::*;

use crate::clock::{date_of, date_str, date_text, day_index, day_of};
use crate::order::{is_stable_order, lemma_stable_order_unique, stable_order, Ranked};
use crate::qso::QsoRecord;

verus! {

/// One entry in the flat list that the logbook scrolls through.
#[derive(Clone, Copy, PartialEq, Eq, Structural, Debug)]
pub enum LogItem {
    /// Index into [`LogView::groups`].
    Header(usize),
    /// Index into [`LogView::order`].
    Qso(usize),
}

/// One day's contacts in [`LogView::order`], as a half-open range plus what
/// the day's header prints.
#[derive(Debug)]
pub struct LogGroup {
    pub day: String,
    pub oldest: i64,
    pub newest: i64,
    pub start: usize,
    pub end: usize,
}

/// Newest-first order and day groups of a log, kept until the log changes.
#[derive(Debug)]
pub struct LogView {
    pub order: Vec<usize>,
    pub groups: Vec<LogGroup>,
    /// Headers and rows in one list, which is what the scroll area indexes.
    pub items: Vec<LogItem>,
    /// What the view was built from.
    pub signature: Option<(usize, u64)>,
}

impl Default for LogView {
    fn default() -> (r: LogView)
        ensures
            r.order@.len() == 0,
            r.groups@.len() == 0,
            r.items@.len() == 0,
            r.signature is None,
    {
        LogView { order: Vec::new(), groups: Vec::new(), items: Vec::new(), signature: None }
    }
}

/// A start time as a key that puts the latest first.
#[derive(Clone, Copy, Debug)]
pub struct Newest {
    pub at: i64,
}

impl Ranked for Newest {
    open spec fn before(&self, other: &Self) -> bool {
        self.at > other.at
    }

    fn is_before(&self, other: &Self) -> (r: bool) {
        self.at > other.at
    }

    proof fn lemma_asymmetric(a: &Self, b: &Self) {
    }

    proof fn lemma_transitive(a: &Self, b: &Self, c: &Self) {
    }
}

/// The log's start times as sort keys.
pub open spec fn start_keys(log: Seq<QsoRecord>) -> Seq<Newest> {
    Seq::new(log.len(), |i: int| Newest { at: log[i].start_utc })
}

/// The fold over ids and start times by which a changed log is noticed.
pub open spec fn log_hash(log: Seq<QsoRecord>) -> u64
    decreases log.len(),
{
    if log.len() == 0 {
        0xcbf2_9ce4_8422_2325
    } else {
        let r = log.last();
        let h = (log_hash(log.drop_last()) ^ r.id).wrapping_mul(0x1000_0000_01b3);
        (h ^ (r.start_utc as u64)).wrapping_mul(0x1000_0000_01b3)
    }
}

/// The day of the contact that `order` lists at `i`.
pub open spec fn listed_day(log: Seq<QsoRecord>, order: Seq<usize>, i: int) -> int {
    day_of(log[order[i] as int].start_utc as int)
}

/// True when `g` is the run of one day's contacts in `order`, with the values
/// its header prints.
pub open spec fn is_day_group(log: Seq<QsoRecord>, order: Seq<usize>, g: LogGroup) -> bool {
    &&& g.start < g.end <= order.len()
    &&& forall|i: int|
        g.start <= i < g.end ==> #[trigger] listed_day(log, order, i) == listed_day(
            log,
            order,
            g.start as int,
        )
    &&& g.end < order.len() ==> listed_day(log, order, g.end as int) != listed_day(
        log,
        order,
        g.start as int,
    )
    &&& g.newest == log[order[g.start as int] as int].start_utc
    &&& g.oldest == log[order[g.end - 1] as int].start_utc
    &&& g.day@ == date_text(date_of(listed_day(log, order, g.start as int)))
}

/// Where the groups listed so far end.
pub open spec fn groups_end(groups: Seq<LogGroup>) -> int {
    if groups.len() == 0 {
        0
    } else {
        groups.last().end as int
    }
}

/// True when the groups are the days of `order[..upto]`, one behind the other
/// from the start, with no gap and no overlap.
pub open spec fn groups_tile(
    log: Seq<QsoRecord>,
    order: Seq<usize>,
    groups: Seq<LogGroup>,
    upto: int,
) -> bool {
    &&& groups_end(groups) == upto
    &&& forall|k: int| 0 <= k < groups.len() ==> is_day_group(log, order, #[trigger] groups[k])
    &&& groups.len() > 0 ==> groups[0].start == 0
    &&& forall|k: int, n: int|
        0 <= k && n == k + 1 && n < groups.len() ==> (#[trigger] groups[k]).end == (
        #[trigger] groups[n]).start
}

/// The rows of one group.
pub open spec fn group_rows(g: LogGroup) -> Seq<LogItem> {
    Seq::new((g.end - g.start) as nat, |k: int| LogItem::Qso((g.start + k) as usize))
}

/// Each group's header followed by exactly that group's rows.
pub open spec fn flat_items(groups: Seq<LogGroup>) -> Seq<LogItem>
    decreases groups.len(),
{
    if groups.len() == 0 {
        Seq::empty()
    } else {
        flat_items(groups.drop_last()) + seq![LogItem::Header((groups.len() - 1) as usize)]
            + group_rows(groups.last())
    }
}

impl LogView {
    /// True when this is the view of `log`: newest first, equal times in log
    /// order, grouped by day, flattened.
    pub open spec fn shows(&self, log: Seq<QsoRecord>) -> bool {
        &&& is_stable_order(start_keys(log), self.order@)
        &&& groups_tile(log, self.order@, self.groups@, log.len() as int)
        &&& self.items@ == flat_items(self.groups@)
    }

    /// Rebuilds the view if, and only if, the log's signature has changed.
    pub fn refresh(&mut self, log: &[QsoRecord])
        ensures
            old(self).signature == Some((log@.len() as usize, log_hash(log@))) ==> *final(self)
                == *old(self),
            old(self).signature != Some((log@.len() as usize, log_hash(log@))) ==> final(self).shows(log@),
            final(self).signature == Some((log@.len() as usize, log_hash(log@))),
    {
        let sig = (log.len(), hash_of(log));
        if let Some(s) = self.signature {
            if s.0 == sig.0 && s.1 == sig.1 {
                return;
            }
        }
        let order = newest_first(log);
        let groups = day_groups(log, &order);
        let items = flatten(&groups);
        self.signature = Some(sig);
        self.order = order;
        self.groups = groups;
        self.items = items;
    }
}

fn hash_of(log: &[QsoRecord]) -> (h: u64)
    ensures
        h == log_hash(log@),
{
    let mut h: u64 = 0xcbf2_9ce4_8422_2325;
    let mut i: usize = 0;
    assert(log@.take(0).len() == 0);
    while i < log.len()
        invariant
            i <= log@.len(),
            h == log_hash(log@.take(i as int)),
        decreases log@.len() - i,
    {
        assert(log@.take(i + 1).drop_last() =~= log@.take(i as int));
        h = h ^ log[i].id;
        h = h.wrapping_mul(0x1000_0000_01b3);
        h = h ^ (
        #[verifier::truncate]
        (log[i].start_utc as u64));
        h = h.wrapping_mul(0x1000_0000_01b3);
        i = i + 1;
    }
    assert(log@.take(log@.len() as int) =~= log@);
    h
}

fn newest_first(log: &[QsoRecord]) -> (order: Vec<usize>)
    ensures
        is_stable_order(start_keys(log@), order@),
{
    let mut keys: Vec<Newest> = Vec::new();
    let mut i: usize = 0;
    while i < log.len()
        invariant
            i <= log@.len(),
            keys@ =~= start_keys(log@).take(i as int),
        decreases log@.len() - i,
    {
        keys.push(Newest { at: log[i].start_utc });
        i = i + 1;
    }
    assert(keys@ =~= start_keys(log@));
    stable_order(&keys)
}

fn day_groups(log: &[QsoRecord], order: &Vec<usize>) -> (groups: Vec<LogGroup>)
    requires
        is_stable_order(start_keys(log@), order@),
    ensures
        groups_tile(log@, order@, groups@, log@.len() as int),
{
    let mut groups: Vec<LogGroup> = Vec::new();
    let mut i: usize = 0;
    while i < order.len()
        invariant
            i <= order@.len(),
            is_stable_order(start_keys(log@), order@),
            groups_tile(log@, order@, groups@, i as int),
        decreases order@.len() - i,
    {
        let first: i64 = log[order[i]].start_utc;
        let day: i64 = day_index(first);
        let mut j: usize = i + 1;
        while j < order.len() && day_index(log[order[j]].start_utc) == day
            invariant
                i < j <= order@.len(),
                is_stable_order(start_keys(log@), order@),
                day == listed_day(log@, order@, i as int),
                forall|k: int| i <= k < j ==> #[trigger] listed_day(log@, order@, k) == day,
            decreases order@.len() - j,
        {
            j = j + 1;
        }
        let g = LogGroup {
            day: date_str(first),
            oldest: log[order[j - 1]].start_utc,
            newest: first,
            start: i,
            end: j,
        };
        let ghost before = groups@;
        assert(is_day_group(log@, order@, g));
        groups.push(g);
        proof {
            assert forall|k: int, n: int| 0 <= k && n == k + 1 && n < groups@.len() implies (
            #[trigger] groups@[k]).end == (#[trigger] groups@[n]).start by {
                assert(groups@[k] == before[k]);
                if n < before.len() {
                    assert(groups@[n] == before[n]);
                }
            }
        }
        i = j;
    }
    groups
}

fn flatten(groups: &Vec<LogGroup>) -> (items: Vec<LogItem>)
    requires
        forall|k: int| 0 <= k < groups@.len() ==> (#[trigger] groups@[k]).start <= groups@[k].end,
    ensures
        items@ == flat_items(groups@),
{
    let mut items: Vec<LogItem> = Vec::new();
    let mut gi: usize = 0;
    assert(groups@.take(0).len() == 0);
    while gi < groups.len()
        invariant
            gi <= groups@.len(),
            forall|k: int|
                0 <= k < groups@.len() ==> (#[trigger] groups@[k]).start <= groups@[k].end,
            items@ == flat_items(groups@.take(gi as int)),
        decreases groups@.len() - gi,
    {
        let ghost before = items@;
        items.push(LogItem::Header(gi));
        let start: usize = groups[gi].start;
        let end: usize = groups[gi].end;
        let ghost rows = group_rows(groups@[gi as int]);
        let mut q: usize = start;
        assert(rows.take(0) =~= Seq::empty());
        assert(items@ =~= before + seq![LogItem::Header(gi)] + rows.take(0));
        while q < end
            invariant
                start <= q <= end,
                gi < groups@.len(),
                groups@[gi as int].start == start,
                groups@[gi as int].end == end,
                rows == group_rows(groups@[gi as int]),
                items@ == before + seq![LogItem::Header(gi)] + rows.take(q - start),
            decreases end - q,
        {
            items.push(LogItem::Qso(q));
            assert(rows.take(q - start + 1) =~= rows.take(q - start).push(LogItem::Qso(q)));
            assert(items@ =~= before + seq![LogItem::Header(gi)] + rows.take(q - start + 1));
            q = q + 1;
        }
        assert(rows.take(end - start) =~= rows);
        assert(groups@.take(gi + 1).drop_last() =~= groups@.take(gi as int));
        gi = gi + 1;
    }
    assert(groups@.take(groups@.len() as int) =~= groups@);
    items
}

proof fn lemma_groups_len(groups: Seq<LogGroup>, log: Seq<QsoRecord>, order: Seq<usize>)
    requires
        groups_tile(log, order, groups, groups_end(groups)),
    ensures
        flat_items(groups).len() == groups.len() + groups_end(groups),
    decreases groups.len(),
{
    if groups.len() > 0 {
        let init = groups.drop_last();
        assert forall|k: int, n: int| 0 <= k && n == k + 1 && n < init.len() implies (
        #[trigger] init[k]).end == (#[trigger] init[n]).start by {
            assert(init[k] == groups[k]);
            assert(init[n] == groups[n]);
        }
        assert forall|k: int| 0 <= k < init.len() implies is_day_group(
            log,
            order,
            #[trigger] init[k],
        ) by {
            assert(init[k] == groups[k]);
        }
        lemma_groups_len(init, log, order);
        let last = groups[groups.len() - 1];
        assert(is_day_group(log, order, last));
        assert(last.start == groups_end(init)) by {
            if init.len() > 0 {
                assert(groups[groups.len() - 2].end == last.start);
            } else {
                assert(last == groups[0]);
            }
        }
    }
}

/// The flat list holds one item per contact and one per day.
pub proof fn law_one_item_per_contact_and_day(view: LogView, log: Seq<QsoRecord>)
    requires
        view.shows(log),
    ensures
        view.items@.len() == log.len() + view.groups@.len(),
{
    lemma_groups_len(view.groups@, log, view.order@);
}

/// The groups' ranges tile the whole order: the first begins at zero, each
/// begins where the one ahead of it ends, and the last ends with the log.
pub proof fn law_groups_tile_the_log(view: LogView, log: Seq<QsoRecord>)
    requires
        view.shows(log),
    ensures
        (view.groups@.len() == 0) == (log.len() == 0),
        view.groups@.len() > 0 ==> view.groups@[0].start == 0 && view.groups@.last().end
            == log.len(),
        forall|k: int, n: int|
            0 <= k && n == k + 1 && n < view.groups@.len() ==> (#[trigger] view.groups@[k]).end == (
            #[trigger] view.groups@[n]).start,
        forall|k: int|
            0 <= k < view.groups@.len() ==> (#[trigger] view.groups@[k]).start
                < view.groups@[k].end,
{
    let groups = view.groups@;
    assert forall|k: int| 0 <= k < groups.len() implies (#[trigger] groups[k]).start
        < groups[k].end by {
        assert(is_day_group(log, view.order@, groups[k]));
    }
    if groups.len() > 0 {
        assert(is_day_group(log, view.order@, groups[groups.len() - 1]));
    }
}

/// The contacts are listed newest first: no contact stands behind an older
/// one, and of two at the same second the one logged first stands first.
pub proof fn law_newest_first(view: LogView, log: Seq<QsoRecord>, i: int, j: int)
    requires
        view.shows(log),
        0 <= i < j < view.order@.len(),
    ensures
        log[view.order@[i] as int].start_utc > log[view.order@[j] as int].start_utc || (
        log[view.order@[i] as int].start_utc == log[view.order@[j] as int].start_utc
            && view.order@[i] < view.order@[j]),
{
    let (a, b) = (view.order@[i] as int, view.order@[j] as int);
    assert(crate::order::listed_before(start_keys(log), a, b));
}

/// No day has two groups, and a later day's group stands ahead of an earlier
/// day's.
#[verifier::rlimit(30)]
pub proof fn law_days_newest_first(view: LogView, log: Seq<QsoRecord>, k: int, l: int)
    requires
        view.shows(log),
        0 <= k < l < view.groups@.len(),
    ensures
        listed_day(log, view.order@, view.groups@[k].start as int) > listed_day(
            log,
            view.order@,
            view.groups@[l].start as int,
        ),
    decreases l - k,
{
    lemma_next_day_earlier(view, log, k);
    if k + 1 < l {
        law_days_newest_first(view, log, k + 1, l);
    }
}

#[verifier::rlimit(30)]
proof fn lemma_next_day_earlier(view: LogView, log: Seq<QsoRecord>, k: int)
    requires
        view.shows(log),
        0 <= k < view.groups@.len() - 1,
    ensures
        listed_day(log, view.order@, view.groups@[k].start as int) > listed_day(
            log,
            view.order@,
            view.groups@[k + 1].start as int,
        ),
{
    law_groups_tile_the_log(view, log);
    let (s, n) = (view.groups@[k].start as int, view.groups@[k + 1].start as int);
    assert(is_day_group(log, view.order@, view.groups@[k]));
    assert(is_day_group(log, view.order@, view.groups@[k + 1]));
    assert(view.groups@[k].end == n);
    law_newest_first(view, log, s, n);
    let (x, y) = (
        log[view.order@[s] as int].start_utc as int,
        log[view.order@[n] as int].start_utc as int,
    );
    lemma_day_monotone(x, y);
}

proof fn lemma_day_monotone(x: int, y: int)
    requires
        x >= y,
    ensures
        day_of(x) >= day_of(y),
{
}

/// A log has one view: two views of it agree in everything they show.
pub proof fn law_one_view(a: LogView, b: LogView, log: Seq<QsoRecord>)
    requires
        a.shows(log),
        b.shows(log),
    ensures
        a.order@ == b.order@,
        a.groups@.len() == b.groups@.len(),
        forall|k: int|
            0 <= k < a.groups@.len() ==> {
                let (g, h) = (#[trigger] a.groups@[k], b.groups@[k]);
                g.day@ == h.day@ && g.oldest == h.oldest && g.newest == h.newest && g.start
                    == h.start && g.end == h.end
            },
        a.items@ == b.items@,
{
    lemma_stable_order_unique(start_keys(log), a.order@, b.order@);
    lemma_groups_agree(a, b, log, a.groups@.len() as int);
    lemma_groups_agree(b, a, log, b.groups@.len() as int);
    lemma_flat_same(a.groups@, b.groups@);
}

#[verifier::rlimit(30)]
proof fn lemma_groups_agree(a: LogView, b: LogView, log: Seq<QsoRecord>, k: int)
    requires
        a.shows(log),
        b.shows(log),
        a.order@ == b.order@,
        0 <= k <= a.groups@.len(),
    ensures
        k <= b.groups@.len(),
        forall|i: int|
            0 <= i < k ==> {
                let (g, h) = (#[trigger] a.groups@[i], b.groups@[i]);
                g.day@ == h.day@ && g.oldest == h.oldest && g.newest == h.newest && g.start
                    == h.start && g.end == h.end
            },
    decreases k,
{
    law_groups_tile_the_log(a, log);
    law_groups_tile_the_log(b, log);
    if k > 0 {
        lemma_groups_agree(a, b, log, k - 1);
        let g = a.groups@[k - 1];
        assert(is_day_group(log, a.order@, g));
        if k > 1 {
            assert(a.groups@[k - 2].end == g.start);
            let prev = b.groups@[k - 2];
            if k - 1 == b.groups@.len() {
                assert(prev.end == log.len());
            }
            assert(prev.end == b.groups@[k - 1].start);
        }
        let h = b.groups@[k - 1];
        assert(is_day_group(log, b.order@, h));
        assert(g.start == h.start);
        if g.end < h.end {
            assert(listed_day(log, b.order@, g.end as int) == listed_day(
                log,
                b.order@,
                h.start as int,
            ));
        }
        if h.end < g.end {
            assert(listed_day(log, a.order@, h.end as int) == listed_day(
                log,
                a.order@,
                g.start as int,
            ));
        }
    }
}

proof fn lemma_flat_same(a: Seq<LogGroup>, b: Seq<LogGroup>)
    requires
        a.len() == b.len(),
        forall|k: int|
            0 <= k < a.len() ==> (#[trigger] a[k]).start == b[k].start && a[k].end == b[k].end,
    ensures
        flat_items(a) == flat_items(b),
    decreases a.len(),
{
    if a.len() > 0 {
        lemma_flat_same(a.drop_last(), b.drop_last());
        assert(a[a.len() - 1].start == b[a.len() - 1].start);
        assert(group_rows(a.last()) =~= group_rows(b.last()));
    }
}

/// Every contact of the log is listed, and none twice.
pub proof fn law_every_contact_is_listed_once(view: LogView, log: Seq<QsoRecord>, x: usize)
    requires
        view.shows(log),
        x < log.len(),
    ensures
        view.order@.len() == log.len(),
        view.order@.contains(x),
        forall|i: int, j: int|
            0 <= i < j < view.order@.len() ==> #[trigger] view.order@[i] != #[trigger] view.order@[j],
{
    assert forall|i: int, j: int| 0 <= i < j < view.order@.len() implies #[trigger] view.order@[i]
        != #[trigger] view.order@[j] by {
        law_newest_first(view, log, i, j);
    }
}

/// The contacts of one group are of one day, between its oldest and its newest
/// moment, and that day is the one its header names; a contact of the next group
/// is of another.
pub proof fn law_a_group_is_one_day(view: LogView, log: Seq<QsoRecord>, k: int, i: int)
    requires
        view.shows(log),
        0 <= k < view.groups@.len(),
        view.groups@[k].start <= i < view.groups@[k].end,
    ensures
        ({
            let g = view.groups@[k];
            let at = log[view.order@[i] as int].start_utc;
            &&& g.oldest <= at <= g.newest
            &&& at as int / 86_400 == g.newest as int / 86_400
            &&& g.newest == log[view.order@[g.start as int] as int].start_utc
            &&& g.oldest == log[view.order@[g.end - 1] as int].start_utc
            &&& g.day@ == date_text(date_of(at as int / 86_400))
            &&& k + 1 < view.groups@.len() ==> view.groups@[k + 1].newest as int / 86_400 < at as int
                / 86_400
        }),
{
    let g = view.groups@[k];
    assert(is_day_group(log, view.order@, g));
    assert(listed_day(log, view.order@, i) == listed_day(log, view.order@, g.start as int));
    if g.start < i {
        law_newest_first(view, log, g.start as int, i);
    }
    if i < g.end - 1 {
        law_newest_first(view, log, i, g.end - 1);
    }
    if k + 1 < view.groups@.len() {
        law_days_newest_first(view, log, k, k + 1);
        assert(is_day_group(log, view.order@, view.groups@[k + 1]));
    }
}

proof fn lemma_flat_len(groups: Seq<LogGroup>, k: int)
    requires
        0 <= k <= groups.len(),
        groups.len() > 0 ==> groups[0].start == 0,
        forall|i: int| 0 <= i < groups.len() ==> (#[trigger] groups[i]).start <= groups[i].end,
        forall|i: int, n: int|
            0 <= i && n == i + 1 && n < groups.len() ==> (#[trigger] groups[i]).end == (
            #[trigger] groups[n]).start,
    ensures
        flat_items(groups.take(k)).len() == k + (if k == 0 {
            0
        } else {
            groups[k - 1].end as int
        }),
    decreases k,
{
    if k > 0 {
        lemma_flat_len(groups, k - 1);
        let t = groups.take(k);
        assert(t.drop_last() =~= groups.take(k - 1));
        assert(t.last() == groups[k - 1]);
        if k > 1 {
            assert(groups[k - 2].end == groups[k - 1].start);
        }
    }
}

proof fn lemma_flat_prefix(groups: Seq<LogGroup>, k: int, p: int)
    requires
        0 <= k <= groups.len(),
        0 <= p < flat_items(groups.take(k)).len(),
    ensures
        p < flat_items(groups).len(),
        flat_items(groups)[p] == flat_items(groups.take(k))[p],
    decreases groups.len() - k,
{
    if k < groups.len() {
        let t = groups.take(k + 1);
        assert(t.drop_last() =~= groups.take(k));
        assert(flat_items(t)[p] == flat_items(groups.take(k))[p]);
        lemma_flat_prefix(groups, k + 1, p);
    } else {
        assert(groups.take(k) =~= groups);
    }
}

/// In the list that is scrolled, each day's header stands ahead of exactly that
/// day's contacts, and the days follow one another.
pub proof fn law_a_header_leads_its_contacts(view: LogView, log: Seq<QsoRecord>, k: int, m: int)
    requires
        view.shows(log),
        0 <= k < view.groups@.len(),
        0 <= m < view.groups@[k].end - view.groups@[k].start,
    ensures
        ({
            let at = view.groups@[k].start + k;
            &&& view.items@[at] == LogItem::Header(k as usize)
            &&& view.items@[at + 1 + m] == LogItem::Qso((view.groups@[k].start + m) as usize)
        }),
{
    let groups = view.groups@;
    law_groups_tile_the_log(view, log);
    lemma_flat_len(groups, k);
    lemma_flat_len(groups, k + 1);
    let t = groups.take(k + 1);
    assert(t.drop_last() =~= groups.take(k));
    assert(t.last() == groups[k]);
    let at = groups[k].start + k;
    if k > 0 {
        assert(groups[k - 1].end == groups[k].start);
    }
    assert(flat_items(groups.take(k)).len() == at);
    assert(flat_items(t)[at] == LogItem::Header(k as usize));
    assert(flat_items(t)[at + 1 + m] == group_rows(groups[k])[m]);
    lemma_flat_prefix(groups, k + 1, at);
    lemma_flat_prefix(groups, k + 1, at + 1 + m);
}

/// Moving or renumbering the last contact is noticed: the log's signature
/// changes with its start and with its id.
pub proof fn law_a_moved_contact_is_noticed(log: Seq<QsoRecord>, r: QsoRecord, s: QsoRecord)
    requires
        r.id == s.id && r.start_utc != s.start_utc || r.id != s.id && r.start_utc == s.start_utc,
    ensures
        log_hash(log.push(r)) != log_hash(log.push(s)),
{
    assert(log.push(r).drop_last() =~= log);
    assert(log.push(s).drop_last() =~= log);
    let h = log_hash(log);
    let (x, y) = (r.id, s.id);
    let (u, v) = (r.start_utc, s.start_utc);
    let a = (h ^ x).wrapping_mul(0x1000_0000_01b3);
    let b = (h ^ y).wrapping_mul(0x1000_0000_01b3);
    if x != y {
        assert(h ^ x != h ^ y) by (bit_vector)
            requires
                x != y,
        ;
        lemma_fold_step(h ^ x, h ^ y);
        assert(a ^ (u as u64) != b ^ (u as u64)) by (bit_vector)
            requires
                a != b,
        ;
    } else {
        assert(a ^ (u as u64) != a ^ (v as u64)) by (bit_vector)
            requires
                u != v,
        ;
    }
    lemma_fold_step(a ^ (u as u64), b ^ (v as u64));
}

proof fn lemma_fold_step(x: u64, y: u64)
    requires
        x != y,
    ensures
        x.wrapping_mul(0x1000_0000_01b3) != y.wrapping_mul(0x1000_0000_01b3),
{
    if x.wrapping_mul(0x1000_0000_01b3) == y.wrapping_mul(0x1000_0000_01b3) {
        let (p, q) = (x * 0x1000_0000_01b3int, y * 0x1000_0000_01b3int);
        let d = p / 0x1_0000_0000_0000_0000int - q / 0x1_0000_0000_0000_0000int;
        assert(p % 0x1_0000_0000_0000_0000int == q % 0x1_0000_0000_0000_0000int);
        assert(p - q == d * 0x1_0000_0000_0000_0000int);
        let k = d * 0xb46dd957aff6957bint - (x - y) * 12398993177650int;
        assert(x - y == k * 0x1_0000_0000_0000_0000int);
    }
}

} // verus!
