//! Per-object records and their read-side projection.

use vstd::prelude::*;
use crate::states::EvacuateObjectStatus;

verus! {

/// One row per tracked object within a job's persistence unit.
/// Written by the external migration workers; this crate reads it.
pub struct ObjectRecord {
    /// Identifier of the source object, unique within the job.
    pub id: String,
    /// Current state of the object.
    pub status: EvacuateObjectStatus,
    /// Explanation of a skip; meaningful only in the `Skipped` state.
    pub skipped_reason: Option<String>,
    /// Explanation of a failure; meaningful only in the `Error` state.
    pub error: Option<String>,
}

/// Data integrity of a record as the read side checks it: a skipped
/// record carries a non-empty skip reason, a failed record a non-empty
/// error text. The write side is supposed to enforce this; a violation
/// found while reading is reported as a classified error, never a
/// crash.
pub open spec fn record_integrity_ok(r: ObjectRecord) -> bool {
    &&& r.status is Skipped ==> (r.skipped_reason matches Some(t) && t@.len() > 0)
    &&& r.status is Error ==> (r.error matches Some(t) && t@.len() > 0)
}

/// The human-readable reason projected out of a record: the skip reason
/// for a skipped record, the error text for a failed one, empty
/// otherwise.
pub open spec fn spec_reason(r: ObjectRecord) -> Seq<char> {
    if r.status is Skipped {
        r.skipped_reason->0@
    } else if r.status is Error {
        r.error->0@
    } else {
        Seq::<char>::empty()
    }
}

/// The diagnostic view of one record: object id, state, and the
/// human-readable reason if any.
pub struct ObjectAndStatus {
    /// Identifier of the source object.
    pub uuid: String,
    /// Current state of the object.
    pub status: EvacuateObjectStatus,
    /// Skip or error explanation; empty for every other state.
    pub reason: String,
}

} // verus!
