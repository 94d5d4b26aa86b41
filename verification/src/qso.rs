//! Logbook records.

use vstd::prelude::*;

verus! {

/// One contact of the log.
#[derive(Debug)]
pub struct QsoRecord {
    pub id: u64,
    pub call: String,
    pub grid: Option<String>,
    pub freq_hz: u64,
    pub band: String,
    pub mode: String,
    pub rst_sent: Option<i32>,
    pub rst_rcvd: Option<i32>,
    pub start_utc: i64,
    pub end_utc: i64,
    pub my_call: String,
    pub my_grid: String,
    pub name: String,
    pub qth: String,
    pub state: String,
    pub country: String,
    /// Transmit power in milliwatts.
    pub tx_pwr: Option<u64>,
    pub contest_id: String,
    pub srx: Option<u32>,
    pub stx: Option<u32>,
    pub comment: String,
    pub dxcc: Option<u32>,
    pub cq_zone: Option<u32>,
    pub itu_zone: Option<u32>,
    pub lotw_sent: bool,
    pub lotw_rcvd: bool,
    pub eqsl_sent: bool,
    pub eqsl_rcvd: bool,
    pub qsl_rcvd: bool,
    pub qrz_sent: bool,
    pub hamqth_sent: bool,
    pub clublog_sent: bool,
}

/// Copies an optional text.
pub fn copy_text(o: &Option<String>) -> (r: Option<String>)
    ensures
        r == *o,
{
    match o {
        Some(s) => Some(s.clone()),
        None => None,
    }
}

impl QsoRecord {
    /// A record that holds what this one holds.
    pub fn duplicate(&self) -> (r: QsoRecord)
        ensures
            r == *self,
    {
        QsoRecord {
            id: self.id,
            call: self.call.clone(),
            grid: copy_text(&self.grid),
            freq_hz: self.freq_hz,
            band: self.band.clone(),
            mode: self.mode.clone(),
            rst_sent: self.rst_sent,
            rst_rcvd: self.rst_rcvd,
            start_utc: self.start_utc,
            end_utc: self.end_utc,
            my_call: self.my_call.clone(),
            my_grid: self.my_grid.clone(),
            name: self.name.clone(),
            qth: self.qth.clone(),
            state: self.state.clone(),
            country: self.country.clone(),
            tx_pwr: self.tx_pwr,
            contest_id: self.contest_id.clone(),
            srx: self.srx,
            stx: self.stx,
            comment: self.comment.clone(),
            dxcc: self.dxcc,
            cq_zone: self.cq_zone,
            itu_zone: self.itu_zone,
            lotw_sent: self.lotw_sent,
            lotw_rcvd: self.lotw_rcvd,
            eqsl_sent: self.eqsl_sent,
            eqsl_rcvd: self.eqsl_rcvd,
            qsl_rcvd: self.qsl_rcvd,
            qrz_sent: self.qrz_sent,
            hamqth_sent: self.hamqth_sent,
            clublog_sent: self.clublog_sent,
        }
    }

    /// True of a contact that some service or a card has confirmed.
    pub open spec fn confirmed(&self) -> bool {
        self.lotw_rcvd || self.eqsl_rcvd || self.qsl_rcvd
    }

    /// True of a contact that was sent to some service.
    pub open spec fn sent_anywhere(&self) -> bool {
        self.lotw_sent || self.eqsl_sent || self.qrz_sent || self.hamqth_sent || self.clublog_sent
    }

    /// True when some service or a card has confirmed the contact.
    pub fn is_confirmed(&self) -> (r: bool)
        ensures
            r == self.confirmed(),
            r <==> self.lotw_rcvd || self.eqsl_rcvd || self.qsl_rcvd,
    {
        self.lotw_rcvd || self.eqsl_rcvd || self.qsl_rcvd
    }
}

/// True of a record in which nothing is filled in.
pub open spec fn is_blank_record(r: QsoRecord) -> bool {
    &&& r.id == 0 && r.freq_hz == 0 && r.start_utc == 0 && r.end_utc == 0
    &&& r.call@.len() == 0 && r.band@.len() == 0 && r.mode@.len() == 0
    &&& r.my_call@.len() == 0 && r.my_grid@.len() == 0 && r.name@.len() == 0
    &&& r.qth@.len() == 0 && r.state@.len() == 0 && r.country@.len() == 0
    &&& r.contest_id@.len() == 0 && r.comment@.len() == 0
    &&& r.grid is None && r.rst_sent is None && r.rst_rcvd is None && r.tx_pwr is None
    &&& r.srx is None && r.stx is None && r.dxcc is None && r.cq_zone is None && r.itu_zone is None
    &&& !r.confirmed() && !r.sent_anywhere()
}

impl Default for QsoRecord {
    fn default() -> (r: QsoRecord)
        ensures
            is_blank_record(r),
            r.id == 0 && r.freq_hz == 0 && r.start_utc == 0 && r.end_utc == 0,
            r.call@.len() == 0 && r.band@.len() == 0 && r.mode@.len() == 0,
            r.my_call@.len() == 0 && r.my_grid@.len() == 0 && r.name@.len() == 0,
            r.qth@.len() == 0 && r.state@.len() == 0 && r.country@.len() == 0,
            r.contest_id@.len() == 0 && r.comment@.len() == 0,
            r.grid is None && r.rst_sent is None && r.rst_rcvd is None && r.tx_pwr is None,
            r.srx is None && r.stx is None && r.dxcc is None,
            r.cq_zone is None && r.itu_zone is None,
            !r.lotw_rcvd && !r.eqsl_rcvd && !r.qsl_rcvd,
            !r.lotw_sent && !r.eqsl_sent && !r.qrz_sent && !r.hamqth_sent && !r.clublog_sent,
    {
        QsoRecord {
            id: 0,
            call: String::new(),
            grid: None,
            freq_hz: 0,
            band: String::new(),
            mode: String::new(),
            rst_sent: None,
            rst_rcvd: None,
            start_utc: 0,
            end_utc: 0,
            my_call: String::new(),
            my_grid: String::new(),
            name: String::new(),
            qth: String::new(),
            state: String::new(),
            country: String::new(),
            tx_pwr: None,
            contest_id: String::new(),
            srx: None,
            stx: None,
            comment: String::new(),
            dxcc: None,
            cq_zone: None,
            itu_zone: None,
            lotw_sent: false,
            lotw_rcvd: false,
            eqsl_sent: false,
            eqsl_rcvd: false,
            qsl_rcvd: false,
            qrz_sent: false,
            hamqth_sent: false,
            clublog_sent: false,
        }
    }
}

/// The largest id of a log; zero where the log is empty.
pub open spec fn max_id(log: Seq<QsoRecord>) -> u64
    decreases log.len(),
{
    if log.len() == 0 {
        0
    } else {
        let m = max_id(log.drop_last());
        if log.last().id > m {
            log.last().id
        } else {
            m
        }
    }
}

/// No record's id is above the largest one.
pub proof fn lemma_max_id(log: Seq<QsoRecord>)
    ensures
        forall|i: int| 0 <= i < log.len() ==> #[trigger] log[i].id <= max_id(log),
    decreases log.len(),
{
    if log.len() > 0 {
        lemma_max_id(log.drop_last());
        assert forall|i: int| 0 <= i < log.len() implies #[trigger] log[i].id <= max_id(log) by {
            if i < log.len() - 1 {
                assert(log[i] == log.drop_last()[i]);
            }
        }
    }
}

/// The next free id: one above the largest in use.
pub fn next_log_id(log: &Vec<QsoRecord>) -> (r: u64)
    requires
        max_id(log@) < u64::MAX,
    ensures
        r == max_id(log@) + 1,
        forall|i: int| 0 <= i < log@.len() ==> #[trigger] log@[i].id < r,
        log@.len() == 0 ==> r == 1,
        r > 1 ==> exists|i: int| 0 <= i < log@.len() && #[trigger] log@[i].id == r - 1,
        forall|i: int| 0 <= i < log@.len() ==> #[trigger] log@[i].id != r,
{
    let mut m: u64 = 0;
    let mut i: usize = 0;
    while i < log.len()
        invariant
            i <= log@.len(),
            m == max_id(log@.take(i as int)),
        decreases log@.len() - i,
    {
        assert(log@.take(i + 1).drop_last() =~= log@.take(i as int));
        if log[i].id > m {
            m = log[i].id;
        }
        i = i + 1;
    }
    assert(log@.take(log@.len() as int) =~= log@);
    proof {
        lemma_max_id(log@);
        law_the_largest_id_is_in_use(log@);
    }
    m + 1
}

/// True of a log in which no two records share an id.
pub open spec fn ids_apart(log: Seq<QsoRecord>) -> bool {
    forall|i: int, j: int|
        0 <= i < j < log.len() ==> (#[trigger] log[i]).id != (#[trigger] log[j]).id
}

/// True when the first record with this id stands at `i`.
pub open spec fn first_with_id(log: Seq<QsoRecord>, id: u64, i: int) -> bool {
    0 <= i < log.len() && log[i].id == id && forall|j: int|
        0 <= j < i ==> #[trigger] log[j].id != id
}

/// The position of the first record with this id.
pub fn find_id(log: &Vec<QsoRecord>, id: u64) -> (r: Option<usize>)
    ensures
        match r {
            Some(i) => first_with_id(log@, id, i as int),
            None => forall|j: int| 0 <= j < log@.len() ==> #[trigger] log@[j].id != id,
        },
{
    let mut i: usize = 0;
    while i < log.len()
        invariant
            i <= log@.len(),
            forall|j: int| 0 <= j < i ==> #[trigger] log@[j].id != id,
        decreases log@.len() - i,
    {
        if log[i].id == id {
            return Some(i);
        }
        i = i + 1;
    }
    None
}

/// The largest id is that of some record, and no record's is above it.
pub proof fn law_the_largest_id_is_in_use(log: Seq<QsoRecord>)
    ensures
        log.len() == 0 ==> max_id(log) == 0,
        max_id(log) > 0 ==> exists|i: int| 0 <= i < log.len() && #[trigger] log[i].id == max_id(log),
        forall|i: int| 0 <= i < log.len() ==> #[trigger] log[i].id <= max_id(log),
    decreases log.len(),
{
    lemma_max_id(log);
    if log.len() > 0 {
        let rest = log.drop_last();
        law_the_largest_id_is_in_use(rest);
        if log.last().id > max_id(rest) {
            assert(log[log.len() - 1].id == max_id(log));
        } else if max_id(rest) > 0 {
            let i: int = choose|i: int| 0 <= i < rest.len() && #[trigger] rest[i].id == max_id(rest);
            assert(log[i] == rest[i]);
        }
    }
}

/// A contact is confirmed by any one of the three ways and by nothing else, and
/// was sent somewhere where any one of the five services has it.
pub proof fn law_any_mark_counts(r: QsoRecord)
    ensures
        r.lotw_rcvd ==> r.confirmed(),
        r.eqsl_rcvd ==> r.confirmed(),
        r.qsl_rcvd ==> r.confirmed(),
        !r.lotw_rcvd && !r.eqsl_rcvd && !r.qsl_rcvd ==> !r.confirmed(),
        r.sent_anywhere() <==> r.lotw_sent || r.eqsl_sent || r.qrz_sent || r.hamqth_sent
            || r.clublog_sent,
{
}

/// A record is found by its id: the first that has it.
pub proof fn law_a_record_is_found_by_its_id(log: Seq<QsoRecord>, id: u64, i: int)
    requires
        first_with_id(log, id, i),
    ensures
        0 <= i < log.len() && log[i].id == id,
        ids_apart(log) ==> forall|j: int|
            0 <= j < log.len() && j != i ==> (#[trigger] log[j]).id != id,
        forall|j: int| 0 <= j < i ==> #[trigger] log[j].id != id,
{
    if ids_apart(log) {
        assert forall|j: int| 0 <= j < log.len() && j != i implies (#[trigger] log[j]).id != id by {
            if j < i {
                assert(log[j].id != id);
            } else {
                assert(log[i].id != log[j].id);
            }
        }
    }
}

} // verus!
