//! Scenario tests for the documented behaviour: zero counts on a
//! fresh job, exact distributions, identifier filtering, pagination
//! arithmetic, integrity violations and error classification.

use job_status::ids::JobId;
use job_status::pagination::list_objects_and_status_page;
use job_status::records::ObjectRecord;
use job_status::states::{all_states, from_label, EvacuateObjectStatus};
use job_status::status::{
    classify_store_error, get_status, list_jobs, list_objects_and_status, StatusError,
};
use job_status::store::{JobStore, StoreError};

fn job_from(s: &str) -> JobId {
    JobId::parse(s).expect("a job identifier parses")
}

fn plain_record(id: &str, status: EvacuateObjectStatus) -> ObjectRecord {
    let skipped_reason = match status {
        EvacuateObjectStatus::Skipped => Some(String::from("object already moved")),
        _ => None,
    };
    let error = match status {
        EvacuateObjectStatus::Error => Some(String::from("source unreachable")),
        _ => None,
    };
    ObjectRecord { id: String::from(id), status, skipped_reason, error }
}

#[test]
fn fresh_job_counts_are_zero() {
    let mut store = JobStore::new();
    let job = job_from("550e8400-e29b-41d4-a716-446655440000");
    store.create(&job).unwrap();

    let agg = get_status(&store, &job).unwrap();
    for state in all_states() {
        let label = state.label();
        assert_eq!(agg.get(&label), Some(0));
    }
    assert_eq!(agg.get("Total"), Some(0));
    assert_eq!(agg.get("NoSuchLabel"), None);
}

#[test]
fn missing_job_is_not_found() {
    let store = JobStore::new();
    let job = job_from("550e8400-e29b-41d4-a716-446655440000");
    assert!(matches!(get_status(&store, &job), Err(StatusError::JobNotFound)));
    assert!(matches!(
        list_objects_and_status(&store, &job),
        Err(StatusError::JobNotFound)
    ));
    assert!(matches!(
        list_objects_and_status_page(&store, &job, 1, 10),
        Err(StatusError::JobNotFound)
    ));
}

#[test]
fn known_distribution_round_trips() {
    let mut store = JobStore::new();
    let job = job_from("550e8400-e29b-41d4-a716-446655440000");
    store.create(&job).unwrap();

    let mut n = 0;
    for _ in 0..50 {
        store
            .insert_record(&job, plain_record(&format!("u-{}", n), EvacuateObjectStatus::Unprocessed))
            .unwrap();
        n += 1;
    }
    for _ in 0..30 {
        store
            .insert_record(&job, plain_record(&format!("c-{}", n), EvacuateObjectStatus::Complete))
            .unwrap();
        n += 1;
    }
    for _ in 0..15 {
        store
            .insert_record(&job, plain_record(&format!("s-{}", n), EvacuateObjectStatus::Skipped))
            .unwrap();
        n += 1;
    }
    for _ in 0..5 {
        store
            .insert_record(&job, plain_record(&format!("e-{}", n), EvacuateObjectStatus::Error))
            .unwrap();
        n += 1;
    }

    let agg = get_status(&store, &job).unwrap();
    assert_eq!(agg.get("Unprocessed"), Some(50));
    assert_eq!(agg.get("Complete"), Some(30));
    assert_eq!(agg.get("Skipped"), Some(15));
    assert_eq!(agg.get("Error"), Some(5));
    assert_eq!(agg.get("Assigned"), Some(0));
    assert_eq!(agg.get("Post Processing"), Some(0));
    assert_eq!(agg.get("Total"), Some(100));

    let listing = list_objects_and_status(&store, &job).unwrap();
    assert_eq!(listing.len(), 100);
    for entry in &listing {
        let needs_reason = entry.status == EvacuateObjectStatus::Skipped
            || entry.status == EvacuateObjectStatus::Error;
        assert_eq!(!entry.reason.is_empty(), needs_reason);
    }
}

#[test]
fn list_jobs_filters_non_job_units() {
    let mut store = JobStore::new();
    store.create_unit("postgres").unwrap();
    let job = job_from("936da01f-9abd-4d9d-80c7-02af85c822a8");
    store.create(&job).unwrap();
    store.create_unit("template1").unwrap();

    let jobs = list_jobs(&store).unwrap();
    assert_eq!(jobs, vec![String::from("936da01f-9abd-4d9d-80c7-02af85c822a8")]);
    for j in &jobs {
        assert!(JobId::parse(j).is_some());
    }
}

#[test]
fn parse_normalizes_to_canonical() {
    let braced = job_from("{550E8400-E29B-41D4-A716-446655440000}");
    assert_eq!(braced.as_str(), "550e8400-e29b-41d4-a716-446655440000");

    let simple = job_from("936DA01F9ABD4D9D80C702AF85C822A8");
    assert_eq!(simple.as_str(), "936da01f-9abd-4d9d-80c7-02af85c822a8");

    assert!(JobId::parse("not-a-job-identifier").is_none());
    assert!(JobId::parse("").is_none());
}

#[test]
fn pagination_counts_pages_exactly() {
    let mut store = JobStore::new();
    let job = job_from("550e8400-e29b-41d4-a716-446655440000");
    store.create(&job).unwrap();
    for i in 0..1_000 {
        store
            .insert_record(&job, plain_record(&format!("o-{}", i), EvacuateObjectStatus::Complete))
            .unwrap();
    }

    for page in 1..=10 {
        let p = list_objects_and_status_page(&store, &job, page, 100).unwrap();
        assert_eq!(p.total_records, 1_000);
        assert_eq!(p.total_pages, 10);
        assert_eq!(p.entries.len(), 100);
    }
    let beyond = list_objects_and_status_page(&store, &job, 11, 100).unwrap();
    assert_eq!(beyond.entries.len(), 0);
    assert_eq!(beyond.total_pages, 10);
}

#[test]
fn pagination_last_page_is_short() {
    let mut store = JobStore::new();
    let job = job_from("550e8400-e29b-41d4-a716-446655440000");
    store.create(&job).unwrap();
    for i in 0..250 {
        store
            .insert_record(&job, plain_record(&format!("o-{}", i), EvacuateObjectStatus::Unprocessed))
            .unwrap();
    }

    let first = list_objects_and_status_page(&store, &job, 1, 100).unwrap();
    assert_eq!(first.total_pages, 3);
    assert_eq!(first.entries.len(), 100);
    assert_eq!(first.entries[0].uuid, "o-0");

    let last = list_objects_and_status_page(&store, &job, 3, 100).unwrap();
    assert_eq!(last.entries.len(), 50);
    assert_eq!(last.entries[0].uuid, "o-200");

    let empty_store_page = {
        let other = job_from("936da01f-9abd-4d9d-80c7-02af85c822a8");
        let mut s2 = JobStore::new();
        s2.create(&other).unwrap();
        list_objects_and_status_page(&s2, &other, 1, 100).unwrap()
    };
    assert_eq!(empty_store_page.total_pages, 0);
    assert_eq!(empty_store_page.entries.len(), 0);
}

#[test]
fn skipped_without_reason_is_classified() {
    let mut store = JobStore::new();
    let job = job_from("550e8400-e29b-41d4-a716-446655440000");
    store.create(&job).unwrap();
    store
        .insert_record(
            &job,
            ObjectRecord {
                id: String::from("broken"),
                status: EvacuateObjectStatus::Skipped,
                skipped_reason: None,
                error: None,
            },
        )
        .unwrap();

    assert!(matches!(
        list_objects_and_status(&store, &job),
        Err(StatusError::LookupError)
    ));
    assert!(matches!(
        list_objects_and_status_page(&store, &job, 1, 10),
        Err(StatusError::LookupError)
    ));
}

#[test]
fn error_with_empty_reason_is_classified() {
    let mut store = JobStore::new();
    let job = job_from("550e8400-e29b-41d4-a716-446655440000");
    store.create(&job).unwrap();
    store
        .insert_record(
            &job,
            ObjectRecord {
                id: String::from("broken"),
                status: EvacuateObjectStatus::Error,
                skipped_reason: None,
                error: Some(String::new()),
            },
        )
        .unwrap();

    assert!(matches!(
        list_objects_and_status(&store, &job),
        Err(StatusError::LookupError)
    ));
}

#[test]
fn store_lifecycle_errors() {
    let mut store = JobStore::new();
    let job = job_from("550e8400-e29b-41d4-a716-446655440000");
    store.create(&job).unwrap();
    assert_eq!(store.create(&job), Err(StoreError::AlreadyExists));

    let other = job_from("936da01f-9abd-4d9d-80c7-02af85c822a8");
    assert!(store.connect(&other).is_err());
    assert_eq!(store.insert_record(&other, plain_record("x", EvacuateObjectStatus::Complete)),
        Err(StoreError::NotFound));
    assert!(store.connect(&job).is_ok());
}

#[test]
fn store_errors_classify_to_status_errors() {
    assert_eq!(classify_store_error(&StoreError::NotFound), StatusError::JobNotFound);
    assert_eq!(classify_store_error(&StoreError::ConnectionFailed), StatusError::Unknown);
    assert_eq!(classify_store_error(&StoreError::AlreadyExists), StatusError::Unknown);
}

#[test]
fn labels_round_trip() {
    for state in all_states() {
        let label = state.label();
        assert_eq!(from_label(&label), Some(state));
    }
    assert_eq!(
        EvacuateObjectStatus::PostProcessing.label(),
        String::from("Post Processing")
    );
    assert_eq!(from_label("post_processing"), None);
}
