//! Read-side status aggregation, job listing, diagnostic listing and
//! pagination over the job store.

use vstd::prelude::*;
use crate::ids::{is_canonical_uuid, uuid_canonical_of, uuid_parse_ok, JobId};
use crate::records::{record_integrity_ok, spec_reason, ObjectAndStatus, ObjectRecord};
use crate::states::{all_states, spec_all_states, spec_label, EvacuateObjectStatus};
use crate::store::{JobStore, PersistenceUnit, StoreError};

verus! {

/// The classified failures a caller of the read side sees. Backend
/// detail is inspected once at the boundary and collapsed into one of
/// these kinds; it is never re-exposed past that boundary.
#[derive(Clone, Copy, Debug, PartialEq, Eq, Structural)]
pub enum StatusError {
    /// The requested job's persistence unit does not exist.
    JobNotFound,
    /// The unit exists and was reachable, but the query itself failed,
    /// a data-integrity violation included.
    LookupError,
    /// Any other failure: infrastructure or connection-layer trouble.
    Unknown,
}

/// Collapses a store-lifecycle failure into the caller-visible kind:
/// a missing unit means "no such job"; everything else, connection
/// failures included, is reported as `Unknown`.
pub fn classify_store_error(e: &StoreError) -> (r: StatusError)
    ensures
        e is NotFound ==> r == StatusError::JobNotFound,
        !(e is NotFound) ==> r == StatusError::Unknown,
{
    match e {
        StoreError::NotFound => StatusError::JobNotFound,
        StoreError::AlreadyExists => StatusError::Unknown,
        StoreError::ConnectionFailed => StatusError::Unknown,
    }
}

/// Opens the persistence unit of one job for a read, classifying a
/// lifecycle failure at the boundary.
pub(crate) fn status_db_conn<'a>(store: &'a JobStore, job: &JobId) -> (r: Result<
    &'a PersistenceUnit,
    StatusError,
>)
    requires
        store.wf(),
    ensures
        r is Ok <==> store.has_unit(job@),
        r matches Ok(u) ==> u.spec_records() == store.records_of(job@),
        r matches Err(e) ==> e == StatusError::JobNotFound,
{
    match store.connect(job) {
        Ok(u) => Ok(u),
        Err(e) => Err(classify_store_error(&e)),
    }
}

/// How many of the records are in the given state.
pub open spec fn count_status(records: Seq<ObjectRecord>, s: EvacuateObjectStatus) -> nat
    decreases records.len(),
{
    if records.len() == 0 {
        0
    } else {
        count_status(records.drop_last(), s) + if records.last().status == s {
            1nat
        } else {
            0nat
        }
    }
}

/// The counts of the first `k` enumerated states, added up.
pub open spec fn sum_counts_upto(records: Seq<ObjectRecord>, k: int) -> nat
    decreases k,
{
    if k <= 0 {
        0
    } else {
        sum_counts_upto(records, k - 1) + count_status(records, spec_all_states()[k - 1])
    }
}

/// The sum of the per-state counts over all enumerated states.
pub open spec fn sum_status_counts(records: Seq<ObjectRecord>) -> nat {
    sum_counts_upto(records, spec_all_states().len() as int)
}

/// Every record is in exactly one state, so the per-state counts
/// partition the records: summed over all enumerated states they give
/// the number of records. The aggregate's "Total" entry therefore
/// always equals the sum of the per-state entries.
pub proof fn lemma_counts_partition(records: Seq<ObjectRecord>)
    ensures
        sum_status_counts(records) == records.len(),
    decreases records.len(),
{
    let states = spec_all_states();
    assert(sum_counts_upto(records, 0) == 0);
    if records.len() == 0 {
        assert forall|k: int| 0 <= k < 6 implies count_status(records, states[k]) == 0 by {}
        assert(sum_counts_upto(records, 1) == 0);
        assert(sum_counts_upto(records, 2) == 0);
        assert(sum_counts_upto(records, 3) == 0);
        assert(sum_counts_upto(records, 4) == 0);
        assert(sum_counts_upto(records, 5) == 0);
        assert(sum_counts_upto(records, 6) == 0);
    } else {
        let prev = records.drop_last();
        lemma_counts_partition(prev);
        assert forall|k: int| 1 <= k <= 6 implies #[trigger] sum_counts_upto(records, k)
            == sum_counts_upto(records, k - 1) + count_status(records, states[k - 1]) by {}
        assert forall|k: int| 0 <= k < 6 implies #[trigger] count_status(records, states[k])
            == count_status(prev, states[k]) + if records.last().status == states[k] {
            1nat
        } else {
            0nat
        } by {}
        assert(sum_counts_upto(prev, 1) == sum_counts_upto(prev, 0) + count_status(
            prev,
            states[0],
        ));
        assert(sum_counts_upto(prev, 2) == sum_counts_upto(prev, 1) + count_status(
            prev,
            states[1],
        ));
        assert(sum_counts_upto(prev, 3) == sum_counts_upto(prev, 2) + count_status(
            prev,
            states[2],
        ));
        assert(sum_counts_upto(prev, 4) == sum_counts_upto(prev, 3) + count_status(
            prev,
            states[3],
        ));
        assert(sum_counts_upto(prev, 5) == sum_counts_upto(prev, 4) + count_status(
            prev,
            states[4],
        ));
        assert(sum_counts_upto(prev, 6) == sum_counts_upto(prev, 5) + count_status(
            prev,
            states[5],
        ));
        assert(records.last().status == states[0] || records.last().status == states[1]
            || records.last().status == states[2] || records.last().status == states[3]
            || records.last().status == states[4] || records.last().status == states[5]);
    }
}

/// Prefix sums of the per-state counts never exceed the full sum.
proof fn lemma_sum_upto_le(records: Seq<ObjectRecord>, k1: int, k2: int)
    requires
        0 <= k1 <= k2,
    ensures
        sum_counts_upto(records, k1) <= sum_counts_upto(records, k2),
    decreases k2 - k1,
{
    if k1 < k2 {
        lemma_sum_upto_le(records, k1, k2 - 1);
    }
}

/// With no records, every state's count is zero: `get_status` on a
/// freshly created, empty job reports zero for every enumerated state
/// and a zero total.
pub proof fn lemma_empty_counts(records: Seq<ObjectRecord>, s: EvacuateObjectStatus)
    requires
        records.len() == 0,
    ensures
        count_status(records, s) == 0,
{
}

/// In any aggregate `get_status` can return, the per-state entries
/// summed over every enumerated state equal the "Total" entry.
pub proof fn lemma_aggregate_total(entries: Seq<StatusEntry>, records: Seq<ObjectRecord>)
    requires
        aggregate_matches(entries, records),
    ensures
        entries[0].count + entries[1].count + entries[2].count + entries[3].count
            + entries[4].count + entries[5].count == entries.last().count,
{
    lemma_counts_partition(records);
    assert(sum_counts_upto(records, 1) == sum_counts_upto(records, 0) + count_status(
        records,
        spec_all_states()[0],
    ));
    assert(sum_counts_upto(records, 2) == sum_counts_upto(records, 1) + count_status(
        records,
        spec_all_states()[1],
    ));
    assert(sum_counts_upto(records, 3) == sum_counts_upto(records, 2) + count_status(
        records,
        spec_all_states()[2],
    ));
    assert(sum_counts_upto(records, 4) == sum_counts_upto(records, 3) + count_status(
        records,
        spec_all_states()[3],
    ));
    assert(sum_counts_upto(records, 5) == sum_counts_upto(records, 4) + count_status(
        records,
        spec_all_states()[4],
    ));
    assert(sum_counts_upto(records, 6) == sum_counts_upto(records, 5) + count_status(
        records,
        spec_all_states()[5],
    ));
}

/// In any aggregate `get_status` can return for an empty job, every
/// entry's count is zero, the "Total" entry included.
pub proof fn lemma_empty_aggregate(entries: Seq<StatusEntry>, records: Seq<ObjectRecord>)
    requires
        aggregate_matches(entries, records),
        records.len() == 0,
    ensures
        forall|i: int| 0 <= i < entries.len() ==> (#[trigger] entries[i]).count == 0,
{
    assert forall|i: int| 0 <= i < entries.len() implies (#[trigger] entries[i]).count == 0 by {
        if i < spec_all_states().len() {
            lemma_empty_counts(records, spec_all_states()[i]);
        } else {
            assert(entries[i] == entries.last());
        }
    }
}

/// In any aggregate `get_status` can return, looking a state up by its
/// label finds exactly that state's record count, and looking "Total"
/// up finds the number of records.
pub proof fn lemma_lookup_in_aggregate(
    entries: Seq<StatusEntry>,
    records: Seq<ObjectRecord>,
    s: EvacuateObjectStatus,
)
    requires
        aggregate_matches(entries, records),
    ensures
        spec_lookup(entries, spec_label(s)) == Some(count_status(records, s) as usize),
        spec_lookup(entries, "Total"@) == Some(records.len() as usize),
{
    let states = spec_all_states();
    assert forall|a: EvacuateObjectStatus, b: EvacuateObjectStatus|
        spec_label(a) == spec_label(b) implies a == b by {
        crate::states::lemma_labels_distinct(a, b);
    }
    reveal_strlit("Total");
    reveal_strlit("Unprocessed");
    reveal_strlit("Assigned");
    reveal_strlit("Skipped");
    reveal_strlit("Error");
    reveal_strlit("Post Processing");
    reveal_strlit("Complete");
    assert("Total"@.len() == 5);
    assert("Error"@.len() == 5);
    assert("Total"@.index(0) == 'T');
    assert("Error"@.index(0) == 'E');
    assert forall|k: int| 0 <= k < 6 implies spec_label(states[k]) != "Total"@ by {}
    assert(entries[6] == entries.last());

    assert(forall|j: int| 0 <= j < 6 ==> (#[trigger] entries[j]).label@ != "Total"@);
    lemma_lookup_walk(entries, "Total"@, 6);
    assert(entries.skip(6).first() == entries[6]);
    assert(spec_lookup(entries.skip(6), "Total"@) == Some(entries[6].count));

    let l = spec_label(s);
    if s == states[0] {
        assert(entries.skip(0).first() == entries[0]);
        assert(spec_lookup(entries.skip(0), l) == Some(entries[0].count));
        lemma_lookup_walk(entries, l, 0);
    } else if s == states[1] {
        assert(entries[0].label@ != l);
        lemma_lookup_walk(entries, l, 1);
        assert(entries.skip(1).first() == entries[1]);
        assert(spec_lookup(entries.skip(1), l) == Some(entries[1].count));
    } else if s == states[2] {
        assert(entries[0].label@ != l && entries[1].label@ != l);
        lemma_lookup_walk(entries, l, 2);
        assert(entries.skip(2).first() == entries[2]);
        assert(spec_lookup(entries.skip(2), l) == Some(entries[2].count));
    } else if s == states[3] {
        assert(entries[0].label@ != l && entries[1].label@ != l && entries[2].label@ != l);
        lemma_lookup_walk(entries, l, 3);
        assert(entries.skip(3).first() == entries[3]);
        assert(spec_lookup(entries.skip(3), l) == Some(entries[3].count));
    } else if s == states[4] {
        assert(entries[0].label@ != l && entries[1].label@ != l && entries[2].label@ != l
            && entries[3].label@ != l);
        lemma_lookup_walk(entries, l, 4);
        assert(entries.skip(4).first() == entries[4]);
        assert(spec_lookup(entries.skip(4), l) == Some(entries[4].count));
    } else {
        assert(s == states[5]);
        assert(entries[0].label@ != l && entries[1].label@ != l && entries[2].label@ != l
            && entries[3].label@ != l && entries[4].label@ != l);
        lemma_lookup_walk(entries, l, 5);
        assert(entries.skip(5).first() == entries[5]);
        assert(spec_lookup(entries.skip(5), l) == Some(entries[5].count));
    }
}

/// A lookup that fails on the first `k` entries continues on the rest.
proof fn lemma_lookup_walk(entries: Seq<StatusEntry>, l: Seq<char>, k: int)
    requires
        0 <= k <= entries.len(),
        forall|j: int| 0 <= j < k ==> (#[trigger] entries[j]).label@ != l,
    ensures
        spec_lookup(entries, l) == spec_lookup(entries.skip(k), l),
    decreases k,
{
    if k > 0 {
        lemma_lookup_walk(entries, l, k - 1);
        assert(entries.skip(k - 1).first() == entries[k - 1]);
        assert(entries.skip(k - 1).drop_first() =~= entries.skip(k));
    } else {
        assert(entries.skip(0) =~= entries);
    }
}

/// One entry of an aggregate: a state label (or "Total") and a count.
pub struct StatusEntry {
    /// The state's stable label.
    pub label: String,
    /// How many records are in that state.
    pub count: usize,
}

/// The aggregate status of one job: one entry per enumerated state, in
/// enumeration order, each carrying that state's record count, closed
/// by a "Total" entry holding the number of records.
pub struct AggregateStatus {
    /// The labelled counts, one per state, then the total.
    pub entries: Vec<StatusEntry>,
}

/// What a correct aggregate of the given records holds: one entry per
/// enumerated state with its label and count, and a final "Total"
/// entry equal to the number of records.
pub open spec fn aggregate_matches(entries: Seq<StatusEntry>, records: Seq<ObjectRecord>) -> bool {
    &&& entries.len() == spec_all_states().len() + 1
    &&& forall|i: int|
        0 <= i < spec_all_states().len() ==> (#[trigger] entries[i]).label@ == spec_label(
            spec_all_states()[i],
        ) && entries[i].count == count_status(records, spec_all_states()[i])
    &&& entries.last().label@ == "Total"@
    &&& entries.last().count == records.len()
}

/// The first count held under the given label, if any.
pub open spec fn spec_lookup(entries: Seq<StatusEntry>, label: Seq<char>) -> Option<usize>
    decreases entries.len(),
{
    if entries.len() == 0 {
        None
    } else if entries.first().label@ == label {
        Some(entries.first().count)
    } else {
        spec_lookup(entries.drop_first(), label)
    }
}

impl AggregateStatus {
    /// The count recorded under a label, if the label is present.
    pub fn get(&self, label: &str) -> (r: Option<usize>)
        ensures
            r == spec_lookup(self.entries@, label@),
    {
        let target: String = label.to_owned();
        proof {
            assert(self.entries@.skip(0) =~= self.entries@);
        }
        let n = self.entries.len();
        for i in 0..n
            invariant
                n == self.entries@.len(),
                target@ == label@,
                spec_lookup(self.entries@, label@) == spec_lookup(
                    self.entries@.skip(i as int),
                    label@,
                ),
                forall|j: int| 0 <= j < i ==> self.entries@[j].label@ != label@,
        {
            proof {
                assert(self.entries@.skip(i as int).first() == self.entries@[i as int]);
                assert(self.entries@.skip(i as int).drop_first() =~= self.entries@.skip(
                    i as int + 1,
                ));
            }
            if self.entries[i].label == target {
                return Some(self.entries[i].count);
            }
        }
        None
    }
}

/// How many of the records in the vector are in the given state.
fn count_matching(records: &Vec<ObjectRecord>, s: EvacuateObjectStatus) -> (r: usize)
    ensures
        r == count_status(records@, s),
        r <= records@.len(),
{
    let mut c: usize = 0;
    let n = records.len();
    for i in 0..n
        invariant
            n == records@.len(),
            c == count_status(records@.take(i as int), s),
            c <= i,
    {
        proof {
            assert(records@.take(i as int + 1).drop_last() =~= records@.take(i as int));
            assert(records@.take(i as int + 1).last() == records@[i as int]);
        }
        if records[i].status == s {
            c = c + 1;
        }
    }
    proof {
        assert(records@.take(n as int) =~= records@);
    }
    c
}

/// Aggregates one job's records: one labelled count per enumerated
/// state, every state present even with a zero count, closed by a
/// "Total" entry. Returns `JobNotFound` exactly when the job has no
/// persistence unit; only the status column of each record is read.
pub fn get_status(store: &JobStore, job: &JobId) -> (r: Result<AggregateStatus, StatusError>)
    requires
        store.wf(),
    ensures
        r is Ok <==> store.has_unit(job@),
        !store.has_unit(job@) ==> (r matches Err(e) && e == StatusError::JobNotFound),
        r matches Ok(agg) ==> aggregate_matches(agg.entries@, store.records_of(job@)),
{
    let unit = match status_db_conn(store, job) {
        Ok(u) => u,
        Err(e) => {
            return Err(e);
        },
    };
    let records = unit.records();
    let states = all_states();
    let mut entries: Vec<StatusEntry> = Vec::new();
    let mut total: usize = 0;
    proof {
        lemma_counts_partition(records@);
    }
    let nr = records.len();
    let n = states.len();
    for k in 0..n
        invariant
            n == spec_all_states().len(),
            states@ == spec_all_states(),
            nr == records@.len(),
            records@ == store.records_of(job@),
            entries@.len() == k,
            forall|i: int|
                0 <= i < k ==> (#[trigger] entries@[i]).label@ == spec_label(spec_all_states()[i])
                    && entries@[i].count == count_status(records@, spec_all_states()[i]),
            total == sum_counts_upto(records@, k as int),
            sum_status_counts(records@) == records@.len(),
    {
        let c = count_matching(records, states[k]);
        proof {
            assert(sum_counts_upto(records@, k as int + 1) == sum_counts_upto(records@, k as int)
                + count_status(records@, spec_all_states()[k as int]));
            lemma_sum_upto_le(records@, k as int + 1, spec_all_states().len() as int);
        }
        let label = states[k].label();
        entries.push(StatusEntry { label, count: c });
        total = total + c;
    }
    let total_label = String::from_str("Total");
    entries.push(StatusEntry { label: total_label, count: total });
    proof {
        assert(entries@.last().count == records@.len());
        assert forall|i: int| 0 <= i < spec_all_states().len() implies (#[trigger] entries@[i]).label@
            == spec_label(spec_all_states()[i]) && entries@[i].count == count_status(
            records@,
            spec_all_states()[i],
        ) by {}
    }
    Ok(AggregateStatus { entries })
}

/// The canonical job ids among a sequence of unit names, in order:
/// names that parse as a UUID, rendered canonically; every other name
/// is discarded.
pub open spec fn job_ids_of(names: Seq<Seq<char>>) -> Seq<Seq<char>>
    decreases names.len(),
{
    if names.len() == 0 {
        Seq::<Seq<char>>::empty()
    } else {
        let rest = job_ids_of(names.drop_last());
        if uuid_parse_ok(names.last()) {
            rest.push(uuid_canonical_of(names.last()))
        } else {
            rest
        }
    }
}

/// The character sequences of a vector of strings, in order.
pub open spec fn views_of(v: Seq<String>) -> Seq<Seq<char>> {
    v.map_values(|s: String| s@)
}

/// Enumerates all known jobs: the unit names of the backing system
/// that parse as job identifiers, in canonical form, in unit order.
/// Names of unrelated units are discarded silently; every returned
/// string is a canonical UUID string.
pub fn list_jobs(store: &JobStore) -> (r: Result<Vec<String>, StatusError>)
    ensures
        r is Ok,
        r matches Ok(v) ==> views_of(v@) == job_ids_of(store.names()),
        r matches Ok(v) ==> forall|i: int| 0 <= i < v@.len() ==> is_canonical_uuid(#[trigger] v@[i]@),
{
    let names = store.list();
    let mut out: Vec<String> = Vec::new();
    let n = names.len();
    for i in 0..n
        invariant
            n == names@.len(),
            names@.len() == store.names().len(),
            forall|j: int| 0 <= j < names@.len() ==> (#[trigger] names@[j])@ == store.names()[j],
            views_of(out@) == job_ids_of(store.names().take(i as int)),
            forall|j: int| 0 <= j < out@.len() ==> is_canonical_uuid((#[trigger] out@[j])@),
    {
        proof {
            assert(store.names().take(i as int + 1).drop_last() =~= store.names().take(i as int));
            assert(store.names().take(i as int + 1).last() == store.names()[i as int]);
        }
        match JobId::parse(names[i].as_str()) {
            Some(j) => {
                let c = j.canonical_string();
                out.push(c);
                proof {
                    assert(views_of(out@) =~= job_ids_of(
                        store.names().take(i as int + 1),
                    ));
                }
            },
            None => {
                proof {
                    assert(views_of(out@) =~= job_ids_of(
                        store.names().take(i as int + 1),
                    ));
                }
            },
        }
    }
    proof {
        assert(store.names().take(n as int) =~= store.names());
    }
    Ok(out)
}

/// Whether every record passes the read side's integrity check.
pub open spec fn all_records_ok(records: Seq<ObjectRecord>) -> bool {
    forall|i: int| 0 <= i < records.len() ==> record_integrity_ok(#[trigger] records[i])
}

/// The diagnostic projection of the records holds one entry per
/// record, in order: its id, its state, and its skip or error reason,
/// empty for every other state.
pub open spec fn listing_matches(entries: Seq<ObjectAndStatus>, records: Seq<ObjectRecord>) -> bool {
    &&& entries.len() == records.len()
    &&& forall|i: int|
        0 <= i < records.len() ==> (#[trigger] entries[i]).uuid@ == records[i].id@
            && entries[i].status == records[i].status && entries[i].reason@ == spec_reason(
            records[i],
        )
}

/// Projects one record to its diagnostic view, checking integrity as
/// the read side must: a record whose status demands a reason but
/// whose reason is absent or empty is reported as `LookupError`.
pub(crate) fn project_record(rec: &ObjectRecord) -> (r: Result<ObjectAndStatus, StatusError>)
    ensures
        r is Ok <==> record_integrity_ok(*rec),
        r matches Ok(e) ==> e.uuid@ == rec.id@ && e.status == rec.status && e.reason@
            == spec_reason(*rec),
        r matches Err(x) ==> x == StatusError::LookupError,
{
    let reason: String = match rec.status {
        EvacuateObjectStatus::Skipped => {
            match &rec.skipped_reason {
                Some(t) => {
                    if t.as_str().is_empty() {
                        return Err(StatusError::LookupError);
                    }
                    t.clone()
                },
                None => {
                    return Err(StatusError::LookupError);
                },
            }
        },
        EvacuateObjectStatus::Error => {
            match &rec.error {
                Some(t) => {
                    if t.as_str().is_empty() {
                        return Err(StatusError::LookupError);
                    }
                    t.clone()
                },
                None => {
                    return Err(StatusError::LookupError);
                },
            }
        },
        _ => String::new(),
    };
    Ok(ObjectAndStatus { uuid: rec.id.clone(), status: rec.status, reason })
}

/// Loads every record of one job and projects it to id, state and
/// reason. Returns `JobNotFound` exactly when the job has no unit. A
/// record whose status demands a reason but whose reason is absent or
/// empty is a data-integrity violation: the whole call is reported as
/// `LookupError`, and nothing is listed.
pub fn list_objects_and_status(store: &JobStore, job: &JobId) -> (r: Result<
    Vec<ObjectAndStatus>,
    StatusError,
>)
    requires
        store.wf(),
    ensures
        !store.has_unit(job@) ==> (r matches Err(e) && e == StatusError::JobNotFound),
        store.has_unit(job@) && all_records_ok(store.records_of(job@)) ==> (r matches Ok(v)
            && listing_matches(v@, store.records_of(job@))),
        store.has_unit(job@) && !all_records_ok(store.records_of(job@)) ==> (r matches Err(e)
            && e == StatusError::LookupError),
{
    let unit = match status_db_conn(store, job) {
        Ok(u) => u,
        Err(e) => {
            return Err(e);
        },
    };
    let records = unit.records();
    let mut out: Vec<ObjectAndStatus> = Vec::new();
    let n = records.len();
    for i in 0..n
        invariant
            n == records@.len(),
            records@ == store.records_of(job@),
            store.has_unit(job@),
            out@.len() == i,
            forall|j: int| 0 <= j < i ==> record_integrity_ok(#[trigger] records@[j]),
            forall|j: int|
                0 <= j < i ==> (#[trigger] out@[j]).uuid@ == records@[j].id@
                    && out@[j].status == records@[j].status && out@[j].reason@ == spec_reason(
                    records@[j],
                ),
    {
        match project_record(&records[i]) {
            Ok(e) => {
                out.push(e);
            },
            Err(e) => {
                return Err(e);
            },
        }
    }
    Ok(out)
}

} // verus!
