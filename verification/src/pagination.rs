//! Page-by-page diagnostic listing over one job's records.
//!
//! A page query fetches at most one page of rows and separately counts
//! the whole table; the page count is the ceiling of the total over
//! the page size. Pages are numbered from one.

use vstd::prelude::*;
use crate::ids::JobId;
use crate::records::{record_integrity_ok, ObjectAndStatus, ObjectRecord};
use crate::status::{all_records_ok, listing_matches, project_record, status_db_conn, StatusError};
use crate::store::JobStore;

verus! {

/// How many pages of the given size hold `total` records: the ceiling
/// of `total / per_page`.
pub open spec fn spec_total_pages(total: int, per_page: int) -> int
    recommends
        per_page >= 1,
{
    (total + per_page - 1) / per_page
}

/// How many records the given page holds: a full page everywhere
/// below the last page, the remainder on the last, nothing beyond it.
pub open spec fn spec_page_len(total: int, per_page: int, page: int) -> int
    recommends
        per_page >= 1,
        page >= 1,
{
    let start = (page - 1) * per_page;
    if start >= total {
        0
    } else if total - start < per_page {
        total - start
    } else {
        per_page
    }
}

/// The records of the given page: at most `per_page` of them, starting
/// after `page - 1` full pages.
pub open spec fn page_slice(records: Seq<ObjectRecord>, per_page: int, page: int) -> Seq<
    ObjectRecord,
>
    recommends
        per_page >= 1,
        page >= 1,
{
    let start = (page - 1) * per_page;
    if start >= records.len() {
        Seq::<ObjectRecord>::empty()
    } else if records.len() - start < per_page {
        records.subrange(start, records.len() as int)
    } else {
        records.subrange(start, start + per_page)
    }
}

/// A page holds exactly `spec_page_len` records.
pub proof fn lemma_page_slice_len(records: Seq<ObjectRecord>, per_page: int, page: int)
    requires
        per_page >= 1,
        page >= 1,
    ensures
        page_slice(records, per_page, page).len() == spec_page_len(
            records.len() as int,
            per_page,
            page,
        ),
{
}

/// Paginating `total` records with a page size yields the ceiling of
/// `total / per_page` pages; every page below the last is full, the
/// last is non-empty and at most full, and nothing lies beyond it.
pub proof fn lemma_page_sizes(total: int, per_page: int, page: int)
    requires
        total >= 0,
        per_page >= 1,
        page >= 1,
    ensures
        spec_total_pages(total, per_page) >= 0,
        page < spec_total_pages(total, per_page) ==> spec_page_len(total, per_page, page)
            == per_page,
        total > 0 && page == spec_total_pages(total, per_page) ==> 0 < spec_page_len(
            total,
            per_page,
            page,
        ) <= per_page,
        page > spec_total_pages(total, per_page) ==> spec_page_len(total, per_page, page) == 0,
{
    let pages = spec_total_pages(total, per_page);
    let rem = (total + per_page - 1) % per_page;
    vstd::arithmetic::div_mod::lemma_fundamental_div_mod(total + per_page - 1, per_page);
    vstd::arithmetic::div_mod::lemma_mod_bound(total + per_page - 1, per_page);
    assert(total + per_page - 1 == per_page * pages + rem);
    assert(per_page * pages >= total && per_page * (pages - 1) <= total - 1) by (nonlinear_arith)
        requires
            total + per_page - 1 == per_page * pages + rem,
            0 <= rem < per_page,
            per_page >= 1,
    ;
    assert(pages >= 0) by (nonlinear_arith)
        requires
            per_page * pages >= total,
            total >= 0,
            per_page >= 1,
            total + per_page - 1 == per_page * pages + rem,
            rem < per_page,
    ;
    if page < pages {
        assert((page - 1) * per_page + per_page <= total) by (nonlinear_arith)
            requires
                per_page * (pages - 1) <= total - 1,
                page <= pages - 1,
                per_page >= 1,
                page >= 1,
        ;
    }
    if total > 0 && page == pages {
        assert((page - 1) * per_page < total) by (nonlinear_arith)
            requires
                per_page * (pages - 1) <= total - 1,
                page == pages,
                per_page >= 1,
        ;
    }
    if page > pages {
        assert((page - 1) * per_page >= total) by (nonlinear_arith)
            requires
                per_page * pages >= total,
                page >= pages + 1,
                per_page >= 1,
        ;
    }
}

/// One fetched page of the diagnostic listing, with the total row and
/// page counts computed alongside it.
pub struct Page {
    /// The records of the requested page, projected for diagnostics.
    pub entries: Vec<ObjectAndStatus>,
    /// How many records the whole job holds.
    pub total_records: usize,
    /// How many pages of the requested size hold them.
    pub total_pages: usize,
}

/// Loads one page of a job's diagnostic listing: at most `per_page`
/// projected records, starting after `page - 1` full pages, along with
/// the total record count and the derived page count. Pages are
/// numbered from one; a page beyond the data is empty. Returns
/// `JobNotFound` exactly when the job has no unit, and `LookupError`
/// when a record of the requested page fails the integrity check.
pub fn list_objects_and_status_page(
    store: &JobStore,
    job: &JobId,
    page: usize,
    per_page: usize,
) -> (r: Result<Page, StatusError>)
    requires
        store.wf(),
        page >= 1,
        per_page >= 1,
    ensures
        r is Ok <==> (store.has_unit(job@) && all_records_ok(
            page_slice(store.records_of(job@), per_page as int, page as int),
        )),
        !store.has_unit(job@) ==> (r matches Err(e) && e == StatusError::JobNotFound),
        (store.has_unit(job@) && !all_records_ok(
            page_slice(store.records_of(job@), per_page as int, page as int),
        )) ==> (r matches Err(e) && e == StatusError::LookupError),
        r matches Ok(p) ==> {
            &&& listing_matches(
                p.entries@,
                page_slice(store.records_of(job@), per_page as int, page as int),
            )
            &&& p.total_records == store.records_of(job@).len()
            &&& p.total_pages == spec_total_pages(
                store.records_of(job@).len() as int,
                per_page as int,
            )
        },
{
    let unit = match status_db_conn(store, job) {
        Ok(u) => u,
        Err(e) => {
            return Err(e);
        },
    };
    let records = unit.records();
    let total = records.len();
    let total_pages: usize = if total == 0 {
        proof {
            vstd::arithmetic::div_mod::lemma_basic_div(per_page as int - 1, per_page as int);
        }
        0
    } else {
        proof {
            vstd::arithmetic::div_mod::lemma_div_plus_one(total - 1, per_page as int);
        }
        (total - 1) / per_page + 1
    };
    let ghost gslice = page_slice(records@, per_page as int, page as int);
    let (start, end): (usize, usize) = match (page - 1).checked_mul(per_page) {
        Some(s) => {
            if s < total {
                if total - s < per_page {
                    (s, total)
                } else {
                    (s, s + per_page)
                }
            } else {
                (0, 0)
            }
        },
        None => (0, 0),
    };
    proof {
        let start_int = (page as int - 1) * (per_page as int);
        if start_int >= records@.len() {
            assert(start == 0 && end == 0);
            assert(gslice =~= records@.subrange(start as int, end as int));
        } else {
            assert(start == start_int);
            assert(gslice =~= records@.subrange(start as int, end as int));
        }
    }
    let mut out: Vec<ObjectAndStatus> = Vec::new();
    for i in start..end
        invariant
            start <= i <= end,
            end <= records@.len(),
            records@ == store.records_of(job@),
            store.has_unit(job@),
            gslice == records@.subrange(start as int, end as int),
            gslice == page_slice(store.records_of(job@), per_page as int, page as int),
            out@.len() == i - start,
            forall|j: int| 0 <= j < out@.len() ==> record_integrity_ok(#[trigger] gslice[j]),
            forall|j: int|
                0 <= j < out@.len() ==> (#[trigger] out@[j]).uuid@ == gslice[j].id@
                    && out@[j].status == gslice[j].status && out@[j].reason@
                    == crate::records::spec_reason(gslice[j]),
    {
        proof {
            assert(gslice[i - start] == records@[i as int]);
        }
        match project_record(&records[i]) {
            Ok(e) => {
                out.push(e);
            },
            Err(e) => {
                proof {
                    assert(!record_integrity_ok(gslice[i - start]));
                }
                return Err(e);
            },
        }
    }
    Ok(Page { entries: out, total_records: total, total_pages })
}

} // verus!
