//! Taking the contacts of an ADIF file into the log.

use vstd::prelude::*;

use crate::net::{push_net_log, with_line};
use crate::qso::{ids_apart, lemma_max_id, max_id, next_log_id, QsoRecord};
use crate::replies::near;
use crate::text::{
    ascii_upper, blank, cat, dec, decimal, is_blank, same_ignoring_case, texts, to_ascii_upper,
};

verus! {

/// Two contacts with one station on one band are the same one when they start
/// less than this many seconds apart.
pub const SAME_CONTACT_S: i64 = 120;

/// What came of the file that the operator picked.
#[derive(Debug)]
pub enum Loaded {
    /// The file could not be read.
    Failed(String),
    /// The file was read but makes no sense as ADIF.
    Unreadable,
    /// The contacts of the file, and the code page that was assumed where the
    /// file was not Unicode.
    Records(Vec<QsoRecord>, Option<String>),
}

/// True when `r` is a contact that `q` already records.
pub open spec fn same_contact(q: QsoRecord, r: QsoRecord) -> bool {
    &&& same_ignoring_case(q.call@, r.call@)
    &&& same_ignoring_case(q.band@, r.band@)
    &&& near(q.start_utc, r.start_utc, SAME_CONTACT_S as int)
}

/// True when the log has `r` already.
pub open spec fn is_logged(log: Seq<QsoRecord>, r: QsoRecord) -> bool {
    exists|i: int| 0 <= i < log.len() && same_contact(#[trigger] log[i], r)
}

/// The log after one record of a file: a contact that it has already, or one
/// without a call, is passed over; any other goes to the end under a fresh id.
pub open spec fn imported_one(log: Seq<QsoRecord>, r: QsoRecord) -> Seq<QsoRecord> {
    if is_blank(r.call@) || is_logged(log, r) {
        log
    } else {
        log.push(QsoRecord { id: (max_id(log) + 1) as u64, ..r })
    }
}

/// The log after the records of a file.
pub open spec fn imported(log: Seq<QsoRecord>, records: Seq<QsoRecord>) -> Seq<QsoRecord>
    decreases records.len(),
{
    if records.len() == 0 {
        log
    } else {
        imported_one(imported(log, records.drop_last()), records.last())
    }
}

/// How many records of a file were passed over as known.
pub open spec fn known(log: Seq<QsoRecord>, records: Seq<QsoRecord>) -> nat
    decreases records.len(),
{
    if records.len() == 0 {
        0
    } else {
        let r = records.last();
        known(log, records.drop_last()) + if !is_blank(r.call@) && is_logged(
            imported(log, records.drop_last()),
            r,
        ) {
            1nat
        } else {
            0nat
        }
    }
}

/// The line that the network log shows for an import.
pub open spec fn import_line(loaded: Loaded, log: Seq<QsoRecord>) -> Seq<char> {
    match loaded {
        Loaded::Failed(e) => "ADIF import failed: "@ + e@,
        Loaded::Unreadable => "ADIF import failed: the file could not be parsed"@,
        Loaded::Records(records, assumed) => "ADIF import: "@ + dec(
            (imported(log, records@).len() - log.len()) as nat,
        ) + " added, "@ + dec(known(log, records@)) + " duplicates skipped"@ + match assumed {
            Some(enc) => " (not Unicode; read as "@ + enc@ + ")"@,
            None => Seq::empty(),
        },
    }
}

/// Importing keeps what the log holds, in its place, and adds at most one
/// contact for each record.
pub proof fn law_import_keeps_the_log(log: Seq<QsoRecord>, records: Seq<QsoRecord>)
    ensures
        log.len() <= imported(log, records).len() <= log.len() + records.len(),
        imported(log, records).take(log.len() as int) == log,
    decreases records.len(),
{
    if records.len() > 0 {
        law_import_keeps_the_log(log, records.drop_last());
        let mid = imported(log, records.drop_last());
        assert(imported(log, records).take(log.len() as int) =~= mid.take(log.len() as int));
    } else {
        assert(log.take(log.len() as int) =~= log);
    }
}

proof fn lemma_max_id_push(log: Seq<QsoRecord>, r: QsoRecord)
    ensures
        max_id(log.push(r)) == if r.id > max_id(log) {
            r.id
        } else {
            max_id(log)
        },
{
    assert(log.push(r).drop_last() =~= log);
}

proof fn lemma_import_max_id(log: Seq<QsoRecord>, records: Seq<QsoRecord>)
    requires
        max_id(log) + records.len() <= u64::MAX,
    ensures
        max_id(log) <= max_id(imported(log, records)) <= max_id(log) + records.len(),
    decreases records.len(),
{
    if records.len() > 0 {
        lemma_import_max_id(log, records.drop_last());
        let mid = imported(log, records.drop_last());
        let r = records.last();
        if !(is_blank(r.call@) || is_logged(mid, r)) {
            lemma_max_id_push(mid, QsoRecord { id: (max_id(mid) + 1) as u64, ..r });
        }
    }
}

/// Importing gives no two contacts one id.
pub proof fn law_import_keeps_ids_apart(log: Seq<QsoRecord>, records: Seq<QsoRecord>)
    requires
        ids_apart(log),
        max_id(log) + records.len() <= u64::MAX,
    ensures
        ids_apart(imported(log, records)),
    decreases records.len(),
{
    if records.len() > 0 {
        law_import_keeps_ids_apart(log, records.drop_last());
        lemma_import_max_id(log, records.drop_last());
        let mid = imported(log, records.drop_last());
        let end = imported(log, records);
        lemma_max_id(mid);
        assert forall|i: int, j: int| 0 <= i < j < end.len() implies (#[trigger] end[i]).id != (
        #[trigger] end[j]).id by {
            assert(end[i] == mid[i]);
            if j < mid.len() {
                assert(end[j] == mid[j]);
            }
        }
    }
}

proof fn lemma_record_is_logged(log: Seq<QsoRecord>, records: Seq<QsoRecord>, k: int)
    requires
        0 <= k < records.len(),
        !is_blank(records[k].call@),
    ensures
        is_logged(imported(log, records), records[k]),
    decreases records.len(),
{
    let init = records.drop_last();
    let mid = imported(log, init);
    let end = imported(log, records);
    let r = records[k];
    if k < init.len() {
        assert(init[k] == r);
        lemma_record_is_logged(log, init, k);
        let i = choose|i: int| 0 <= i < mid.len() && same_contact(#[trigger] mid[i], r);
        assert(same_contact(end[i], r));
    } else if is_logged(mid, r) {
    } else {
        assert(same_contact(end[mid.len() as int], r));
    }
}

/// Importing the same file again adds nothing.
pub proof fn law_import_again_adds_nothing(log: Seq<QsoRecord>, records: Seq<QsoRecord>)
    ensures
        imported(imported(log, records), records) == imported(log, records),
{
    lemma_again_prefix(log, records, records.len() as int);
    assert(records.take(records.len() as int) =~= records);
}

proof fn lemma_again_prefix(log: Seq<QsoRecord>, records: Seq<QsoRecord>, k: int)
    requires
        0 <= k <= records.len(),
    ensures
        imported(imported(log, records), records.take(k)) == imported(log, records),
    decreases k,
{
    if k > 0 {
        lemma_again_prefix(log, records, k - 1);
        assert(records.take(k).drop_last() =~= records.take(k - 1));
        assert(records.take(k).last() == records[k - 1]);
        if !is_blank(records[k - 1].call@) {
            lemma_record_is_logged(log, records, k - 1);
        }
    }
}

/// True of a log in which no contact is recorded twice from position `from`
/// on: none of those stands within two minutes of one ahead of it.
pub open spec fn apart_from(log: Seq<QsoRecord>, from: int) -> bool {
    forall|i: int, j: int|
        0 <= i < j < log.len() && from <= j ==> !same_contact(#[trigger] log[i], #[trigger] log[j])
}

/// No imported contact repeats one that stands ahead of it, be it of the old
/// log or of the same file.
pub proof fn law_import_repeats_no_contact(log: Seq<QsoRecord>, records: Seq<QsoRecord>)
    ensures
        apart_from(imported(log, records), log.len() as int),
    decreases records.len(),
{
    if records.len() > 0 {
        law_import_repeats_no_contact(log, records.drop_last());
        let mid = imported(log, records.drop_last());
        let end = imported(log, records);
        let r = records.last();
        assert forall|i: int, j: int|
            0 <= i < j < end.len() && log.len() <= j implies !same_contact(
            #[trigger] end[i],
            #[trigger] end[j],
        ) by {
            assert(end[i] == mid[i]);
            if j < mid.len() {
                assert(end[j] == mid[j]);
            } else {
                assert(!is_logged(mid, r));
                assert(!same_contact(mid[i], r));
                assert(same_contact(mid[i], end[j]) == same_contact(mid[i], r));
            }
        }
    }
}

/// Every contact that an import adds is a record of the file, the same in every
/// field but its id.
pub proof fn law_import_adds_what_the_file_holds(log: Seq<QsoRecord>, records: Seq<QsoRecord>)
    ensures
        forall|i: int|
            log.len() <= i < imported(log, records).len() ==> exists|k: int|
                0 <= k < records.len() && #[trigger] imported(log, records)[i] == (QsoRecord {
                    id: imported(log, records)[i].id,
                    ..#[trigger] records[k]
                }),
    decreases records.len(),
{
    if records.len() > 0 {
        let init = records.drop_last();
        law_import_adds_what_the_file_holds(log, init);
        law_import_keeps_the_log(log, init);
        let mid = imported(log, init);
        let end = imported(log, records);
        assert forall|i: int| log.len() <= i < end.len() implies exists|k: int|
            0 <= k < records.len() && #[trigger] end[i] == (QsoRecord {
                id: end[i].id,
                ..#[trigger] records[k]
            }) by {
            if i < mid.len() {
                assert(end[i] == mid[i]);
                let k = choose|k: int|
                    0 <= k < init.len() && mid[i] == (QsoRecord {
                        id: mid[i].id,
                        ..#[trigger] init[k]
                    });
                assert(records[k] == init[k]);
            } else {
                let k = records.len() - 1;
                assert(end[i] == (QsoRecord { id: end[i].id, ..records[k] }));
            }
        }
    }
}

/// The ids that an import gives count on from the largest one there was.
pub proof fn law_imported_ids_count_on(log: Seq<QsoRecord>, records: Seq<QsoRecord>, i: int, j: int)
    requires
        max_id(log) + records.len() <= u64::MAX,
        log.len() <= i < imported(log, records).len(),
        0 <= j < log.len(),
    ensures
        imported(log, records)[i].id > log[j].id,
        i + 1 < imported(log, records).len() ==> imported(log, records)[i + 1].id == imported(
            log,
            records,
        )[i].id + 1,
    decreases records.len(),
{
    if records.len() > 0 {
        let init = records.drop_last();
        let mid = imported(log, init);
        let end = imported(log, records);
        lemma_max_id(log);
        lemma_import_max_id(log, init);
        law_import_keeps_the_log(log, init);
        if i < mid.len() {
            law_imported_ids_count_on(log, init, i, j);
            assert(end[i] == mid[i]);
            if i + 1 == mid.len() && end.len() > mid.len() {
                lemma_last_id_is_largest(log, init);
            } else if i + 1 < mid.len() {
                assert(end[i + 1] == mid[i + 1]);
            }
        } else {
            lemma_import_max_id(log, init);
        }
    }
}

proof fn lemma_last_id_is_largest(log: Seq<QsoRecord>, records: Seq<QsoRecord>)
    requires
        max_id(log) + records.len() <= u64::MAX,
        imported(log, records).len() > log.len(),
    ensures
        imported(log, records).last().id == max_id(imported(log, records)),
    decreases records.len(),
{
    let init = records.drop_last();
    let mid = imported(log, init);
    let end = imported(log, records);
    lemma_import_max_id(log, init);
    law_import_keeps_the_log(log, init);
    if end.len() > mid.len() {
        lemma_max_id_push(mid, end.last());
    } else {
        lemma_last_id_is_largest(log, init);
    }
}

/// A record of the file that names a call is in the log afterwards: there is a
/// contact with that call on that band within two minutes of it.
pub proof fn law_every_contact_of_the_file_is_logged(
    log: Seq<QsoRecord>,
    records: Seq<QsoRecord>,
    k: int,
)
    requires
        0 <= k < records.len(),
        !is_blank(records[k].call@),
    ensures
        exists|i: int|
            0 <= i < imported(log, records).len() && same_ignoring_case(
                (#[trigger] imported(log, records)[i]).call@,
                records[k].call@,
            ) && same_ignoring_case(imported(log, records)[i].band@, records[k].band@) && -120
                < imported(log, records)[i].start_utc - records[k].start_utc < 120,
{
    lemma_record_is_logged(log, records, k);
    let end = imported(log, records);
    let i = choose|i: int| 0 <= i < end.len() && same_contact(#[trigger] end[i], records[k]);
    assert(same_ignoring_case(end[i].call@, records[k].call@));
}

/// An added contact has a call, and no contact ahead of it has the same call on
/// the same band within two minutes.
pub proof fn law_an_added_contact_is_new(log: Seq<QsoRecord>, records: Seq<QsoRecord>, i: int, j: int)
    requires
        log.len() <= i < imported(log, records).len(),
        0 <= j < i,
    ensures
        !is_blank(imported(log, records)[i].call@),
        !(same_ignoring_case(imported(log, records)[j].call@, imported(log, records)[i].call@)
            && same_ignoring_case(imported(log, records)[j].band@, imported(log, records)[i].band@)
            && -120 < imported(log, records)[j].start_utc - imported(log, records)[i].start_utc
            < 120),
    decreases records.len(),
{
    law_import_repeats_no_contact(log, records);
    let end = imported(log, records);
    assert(!same_contact(end[j], end[i]));
    if records.len() > 0 {
        let init = records.drop_last();
        let mid = imported(log, init);
        law_import_keeps_the_log(log, init);
        if i < mid.len() {
            law_an_added_contact_is_new(log, init, i, j);
            assert(end[i] == mid[i]);
        }
    }
}

/// A record of the file that the log does not have yet is not passed over: it
/// counts as a duplicate only where a contact ahead of it has the same call on
/// the same band within two minutes, or it names no call at all.
pub proof fn law_a_new_contact_is_added(log: Seq<QsoRecord>, r: QsoRecord)
    ensures
        imported(log, seq![r]).len() == log.len() + (if is_blank(r.call@) || (exists|i: int|
            0 <= i < log.len() && same_ignoring_case((#[trigger] log[i]).call@, r.call@)
                && same_ignoring_case(log[i].band@, r.band@) && -120 < log[i].start_utc
                - r.start_utc < 120) {
            0nat
        } else {
            1nat
        }),
        known(log, seq![r]) == (if !is_blank(r.call@) && (exists|i: int|
            0 <= i < log.len() && same_ignoring_case((#[trigger] log[i]).call@, r.call@)
                && same_ignoring_case(log[i].band@, r.band@) && -120 < log[i].start_utc
                - r.start_utc < 120) {
            1nat
        } else {
            0nat
        }),
{
    let one = seq![r];
    assert(one.drop_last() =~= Seq::<QsoRecord>::empty());
    assert(imported(log, one.drop_last()) == log);
    assert(known(log, one.drop_last()) == 0);
    if is_logged(log, r) {
        let i = choose|i: int| 0 <= i < log.len() && same_contact(#[trigger] log[i], r);
        assert(same_ignoring_case(log[i].call@, r.call@));
    }
    if exists|i: int|
        0 <= i < log.len() && same_ignoring_case((#[trigger] log[i]).call@, r.call@)
            && same_ignoring_case(log[i].band@, r.band@) && -120 < log[i].start_utc - r.start_utc
            < 120 {
        let i = choose|i: int|
            0 <= i < log.len() && same_ignoring_case((#[trigger] log[i]).call@, r.call@)
                && same_ignoring_case(log[i].band@, r.band@) && -120 < log[i].start_utc
                - r.start_utc < 120;
        assert(same_contact(log[i], r));
    }
}

/// A file is imported record by record: two files one after the other come to
/// the same as their records in one.
pub proof fn law_imports_add_up(log: Seq<QsoRecord>, a: Seq<QsoRecord>, b: Seq<QsoRecord>)
    ensures
        imported(imported(log, a), b) == imported(log, a + b),
        known(log, a) + known(imported(log, a), b) == known(log, a + b),
    decreases b.len(),
{
    if b.len() == 0 {
        assert(a + b =~= a);
    } else {
        assert((a + b).drop_last() =~= a + b.drop_last());
        assert((a + b).last() == b.last());
        law_imports_add_up(log, a, b.drop_last());
    }
}

/// Every record of a file was added, was known, or named no call.
pub proof fn law_an_import_accounts_for_the_file(log: Seq<QsoRecord>, records: Seq<QsoRecord>)
    requires
        forall|k: int| 0 <= k < records.len() ==> !is_blank((#[trigger] records[k]).call@),
    ensures
        imported(log, records).len() - log.len() + known(log, records) == records.len(),
    decreases records.len(),
{
    if records.len() > 0 {
        let init = records.drop_last();
        assert forall|k: int| 0 <= k < init.len() implies !is_blank((#[trigger] init[k]).call@) by {
            assert(init[k] == records[k]);
        }
        law_an_import_accounts_for_the_file(log, init);
        assert(!is_blank(records[records.len() - 1].call@));
    }
}

/// The upper-case call and band of a contact.
fn key_of(q: &QsoRecord) -> (k: (String, String))
    ensures
        k.0@ == ascii_upper(q.call@),
        k.1@ == ascii_upper(q.band@),
{
    (to_ascii_upper(q.call.as_str()), to_ascii_upper(q.band.as_str()))
}

spec fn keys_of(log: Seq<QsoRecord>, keys: Seq<(String, String)>) -> bool {
    &&& keys.len() == log.len()
    &&& forall|i: int|
        0 <= i < log.len() ==> (#[trigger] keys[i]).0@ == ascii_upper(log[i].call@) && keys[i].1@
            == ascii_upper(log[i].band@)
}

fn already_logged(
    log: &Vec<QsoRecord>,
    keys: &Vec<(String, String)>,
    key: &(String, String),
    r: &QsoRecord,
) -> (known: bool)
    requires
        keys_of(log@, keys@),
        key.0@ == ascii_upper(r.call@),
        key.1@ == ascii_upper(r.band@),
    ensures
        known == is_logged(log@, *r),
{
    let mut i: usize = 0;
    while i < log.len()
        invariant
            i <= log@.len(),
            keys_of(log@, keys@),
            key.0@ == ascii_upper(r.call@),
            key.1@ == ascii_upper(r.band@),
            forall|j: int| 0 <= j < i ==> !same_contact(#[trigger] log@[j], *r),
        decreases log@.len() - i,
    {
        let apart: i128 = log[i].start_utc as i128 - r.start_utc as i128;
        if -120 < apart && apart < 120 && keys[i].0 == key.0 && keys[i].1 == key.1 {
            assert(same_contact(log@[i as int], *r));
            return true;
        }
        i = i + 1;
    }
    false
}

fn import_records(log: &mut Vec<QsoRecord>, records: &Vec<QsoRecord>) -> (skipped: usize)
    requires
        max_id(old(log)@) + records@.len() < u64::MAX,
    ensures
        final(log)@ == imported(old(log)@, records@),
        skipped == known(old(log)@, records@),
        forall|i: int|
            0 <= i < old(log)@.len() ==> #[trigger] final(log)@[i] == old(log)@[i],
        forall|i: int|
            old(log)@.len() <= i < final(log)@.len() ==> exists|k: int|
                0 <= k < records@.len() && #[trigger] final(log)@[i] == (QsoRecord {
                    id: final(log)@[i].id,
                    ..#[trigger] records@[k]
                }),
{
    let mut keys: Vec<(String, String)> = Vec::new();
    let mut i: usize = 0;
    while i < log.len()
        invariant
            i <= log@.len(),
            keys@.len() == i,
            log@ == old(log)@,
            forall|j: int|
                0 <= j < i ==> (#[trigger] keys@[j]).0@ == ascii_upper(log@[j].call@)
                    && keys@[j].1@ == ascii_upper(log@[j].band@),
        decreases log@.len() - i,
    {
        keys.push(key_of(&log[i]));
        i = i + 1;
    }
    let mut next_id: u64 = next_log_id(log);
    let mut skipped: usize = 0;
    let mut k: usize = 0;
    assert(records@.take(0).len() == 0);
    while k < records.len()
        invariant
            k <= records@.len(),
            skipped <= k,
            keys_of(log@, keys@),
            max_id(old(log)@) + records@.len() < u64::MAX,
            next_id == max_id(log@) + 1,
            max_id(log@) <= max_id(old(log)@) + k,
            log@ == imported(old(log)@, records@.take(k as int)),
            skipped == known(old(log)@, records@.take(k as int)),
        decreases records@.len() - k,
    {
        let ghost before = log@;
        assert(records@.take(k + 1).drop_last() =~= records@.take(k as int));
        assert(records@.take(k + 1).last() == records@[k as int]);
        let r = &records[k];
        if !blank(r.call.as_str()) {
            let key = key_of(r);
            if already_logged(log, &keys, &key, r) {
                skipped = skipped + 1;
            } else {
                let mut rec = r.duplicate();
                rec.id = next_id;
                proof {
                    lemma_max_id_push(before, rec);
                }
                log.push(rec);
                keys.push(key);
                next_id = next_id + 1;
            }
        }
        k = k + 1;
    }
    assert(records@.take(records@.len() as int) =~= records@);
    proof {
        law_import_keeps_the_log(old(log)@, records@);
        law_import_adds_what_the_file_holds(old(log)@, records@);
        assert forall|i: int| 0 <= i < old(log)@.len() implies #[trigger] log@[i] == old(log)@[i] by {
            assert(log@.take(old(log)@.len() as int)[i] == log@[i]);
        }
    }
    skipped
}

/// Takes a picked file into the log: contacts it has already are skipped, the
/// others are added with fresh ids, and the network log says what came of it.
/// A file that could not be read leaves the log as it was. Returns whether the
/// log has to be stored.
pub fn poll_adif_import(
    loaded: &Loaded,
    net_log: &mut Vec<String>,
    log: &mut Vec<QsoRecord>,
) -> (changed: bool)
    requires
        loaded matches Loaded::Records(records, _) ==> max_id(old(log)@) + records@.len()
            < u64::MAX,
    ensures
        final(log)@ == (match *loaded {
            Loaded::Records(records, _) => imported(old(log)@, records@),
            _ => old(log)@,
        }),
        changed == (final(log)@.len() > old(log)@.len()),
        final(log)@.len() >= old(log)@.len(),
        forall|i: int|
            0 <= i < old(log)@.len() ==> #[trigger] final(log)@[i] == old(log)@[i],
        !(loaded is Records) ==> final(log)@ == old(log)@,
        loaded matches Loaded::Records(records, _) ==> forall|i: int|
            old(log)@.len() <= i < final(log)@.len() ==> exists|k: int|
                0 <= k < records@.len() && #[trigger] final(log)@[i] == (QsoRecord {
                    id: final(log)@[i].id,
                    ..#[trigger] records@[k]
                }),
        texts(final(net_log)@) == with_line(texts(old(net_log)@), import_line(*loaded, old(log)@)),
{
    match loaded {
        Loaded::Failed(e) => {
            push_net_log(net_log, cat("ADIF import failed: ", e.as_str()));
            false
        },
        Loaded::Unreadable => {
            push_net_log(net_log, "ADIF import failed: the file could not be parsed".to_owned());
            false
        },
        Loaded::Records(records, assumed) => {
            let before: usize = log.len();
            let skipped: usize = import_records(log, records);
            proof {
                law_import_keeps_the_log(old(log)@, records@);
            }
            let added: usize = log.len() - before;
            let mut line = cat("ADIF import: ", decimal(added as u64).as_str());
            line.append(" added, ");
            line.append(decimal(skipped as u64).as_str());
            line.append(" duplicates skipped");
            match assumed {
                Some(enc) => {
                    let ghost head = line@;
                    line.append(" (not Unicode; read as ");
                    line.append(enc.as_str());
                    line.append(")");
                    assert(line@ =~= head + (" (not Unicode; read as "@ + enc@ + ")"@));
                },
                None => {
                    assert(line@ =~= line@ + Seq::empty());
                },
            }
            push_net_log(net_log, line);
            added > 0
        },
    }
}

/// The line about an import gives how many contacts were added and how many were
/// known, and what the file was taken to be written in where that was a guess. A
/// file that could not be read is a failure.
pub proof fn law_the_import_line_counts(loaded: Loaded, log: Seq<QsoRecord>)
    ensures
        loaded matches Loaded::Failed(e) ==> import_line(loaded, log) == "ADIF import failed: "@
            + e@,
        loaded is Unreadable ==> import_line(loaded, log)
            == "ADIF import failed: the file could not be parsed"@,
        loaded matches Loaded::Records(records, assumed) ==> {
            let counts = "ADIF import: "@ + dec(
                (imported(log, records@).len() - log.len()) as nat,
            ) + " added, "@ + dec(known(log, records@)) + " duplicates skipped"@;
            &&& assumed is None ==> import_line(loaded, log) == counts
            &&& assumed matches Some(enc) ==> import_line(loaded, log) == counts + (
            " (not Unicode; read as "@ + enc@ + ")"@)
        },
{
    if let Loaded::Records(records, assumed) = loaded {
        let counts = "ADIF import: "@ + dec(
            (imported(log, records@).len() - log.len()) as nat,
        ) + " added, "@ + dec(known(log, records@)) + " duplicates skipped"@;
        if assumed is None {
            assert(import_line(loaded, log) =~= counts);
        } else {
            assert(import_line(loaded, log) =~= counts + (" (not Unicode; read as "@
                + assumed->0@ + ")"@));
        }
    }
}

} // verus!
