//! The read-side tests: aggregation, listing and pagination over a
//! populated job store.

use job_status::ids::JobId;
use job_status::pagination::list_objects_and_status_page;
use job_status::records::ObjectRecord;
use job_status::states::EvacuateObjectStatus;
use job_status::status::{get_status, list_jobs, list_objects_and_status};
use job_status::store::JobStore;

const NUM_OBJS: u32 = 200;

fn fresh_job(store: &mut JobStore) -> JobId {
    let id_str = uuid::Uuid::new_v4().to_string();
    let job = JobId::parse(&id_str).expect("a generated UUID parses");
    store.create(&job).expect("the job is new");
    job
}

/// A record in the given state, carrying the reason its state demands.
fn record_with_status(id: u32, status: EvacuateObjectStatus) -> ObjectRecord {
    let skipped_reason = match status {
        EvacuateObjectStatus::Skipped => Some(String::from("destination shard full")),
        _ => None,
    };
    let error = match status {
        EvacuateObjectStatus::Error => Some(String::from("copy failed")),
        _ => None,
    };
    ObjectRecord { id: format!("obj-{}", id), status, skipped_reason, error }
}

fn spread_status(i: u32) -> EvacuateObjectStatus {
    match i % 6 {
        0 => EvacuateObjectStatus::Unprocessed,
        1 => EvacuateObjectStatus::Assigned,
        2 => EvacuateObjectStatus::Skipped,
        3 => EvacuateObjectStatus::Error,
        4 => EvacuateObjectStatus::PostProcessing,
        _ => EvacuateObjectStatus::Complete,
    }
}

#[test]
fn big_list() {
    let mut store = JobStore::new();
    let job = fresh_job(&mut store);

    for i in 0..1_000 {
        let rec = record_with_status(i, spread_status(i));
        store.insert_record(&job, rec).expect("the job exists");
    }

    let page = list_objects_and_status_page(&store, &job, 5, 100).unwrap();
    assert_eq!(page.total_records, 1_000);
    assert_eq!(page.total_pages, 10);
    assert_eq!(page.entries.len(), 100);

    list_objects_and_status(&store, &job).unwrap();
}

#[test]
fn list_job_test() {
    let store = JobStore::new();
    assert!(list_jobs(&store).is_ok());
}

#[test]
fn bad_job_id() {
    let store = JobStore::new();
    let id_str = uuid::Uuid::new_v4().to_string();
    let job = JobId::parse(&id_str).expect("a generated UUID parses");
    assert!(get_status(&store, &job).is_err());
}

#[test]
fn get_status_test() {
    let mut store = JobStore::new();
    let job = fresh_job(&mut store);

    for i in 0..NUM_OBJS {
        let rec = record_with_status(i, spread_status(i));
        store.insert_record(&job, rec).expect("the job exists");
    }

    get_status(&store, &job).unwrap();
}
