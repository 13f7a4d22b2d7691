use harness_store_sqlite::error::{ErrorCode, StoreError};
use harness_store_sqlite::extraction::{
    assert_job_lease, check_page_limit, decode_job, ensure_extraction_cursor, extraction_cursor,
    extraction_schedule_start, fail_extraction_job, failure_delay_ms, insert_extraction_job,
    lease_extraction_job, next_due, note_known_proposals, pause_extraction_jobs, read_cursor,
    recover_extraction_jobs, settle_extraction_assets, source_work_ranges, ExtractedAsset, JobMark,
    JobRange, JobRow, MarkedEvent, StoredExtractionJobRecord, StoredExtractionLeaseRecord,
};
use harness_store_sqlite::journal::HostFence;
use harness_store_sqlite::memory::{
    MemoryAsset, MemoryAssetStatus, MemoryScope, MemoryVerdicts, MemoryVersion,
    StoredMemoryAssetRecord, StoredMemoryVersionRecord,
};

fn text(value: &str) -> String {
    value.to_owned()
}

fn fence() -> HostFence {
    HostFence { host_id: text("host"), generation: 3 }
}

fn fails<T>(result: Result<T, StoreError>, code: ErrorCode, message: &str) {
    match result {
        Ok(_) => panic!("expected {message}"),
        Err(error) => {
            assert_eq!(error.code(), code);
            assert_eq!(error.message(), message);
        }
    }
}

fn record(owner: &str, version: u64) -> StoredMemoryAssetRecord {
    StoredMemoryAssetRecord {
        asset: MemoryAsset {
            memory_asset_id: text("asset"),
            owner_id: text(owner),
            project_id: None,
            scope: MemoryScope::User,
            status: MemoryAssetStatus::Candidate,
            current_version: version,
        },
        layer: text("semantic"),
        task_id: None,
        agent_profile_id: None,
        session_id: None,
        current: StoredMemoryVersionRecord {
            record: MemoryVersion {
                memory_asset_id: text("asset"),
                version,
                content_hash: text("h"),
                source_event_refs: vec![text("e1")],
                source_file_hashes: vec![text("f1"), text("f2")],
                source_commit: Some(text("c1")),
                valid: true,
            },
            content: text("text"),
            normalized_content: text("text"),
            strategy_digest: None,
            sources: Vec::new(),
        },
    }
}

fn accepted() -> MemoryVerdicts {
    MemoryVerdicts { asset: Ok(()), version: Ok(()) }
}


fn row(status: &str) -> JobRow {
    JobRow {
        job_id: text("job"),
        source_stream: Ok(text("stream")),
        start_sequence: 5,
        end_sequence: 6,
        source_digest: Ok(text("digest")),
        source_ids_json: text("[\"e1\",\"e2\"]"),
        extractor_version: text("v1"),
        strategy_digest: Ok(text("strategy")),
        status: text(status),
        attempts: 1,
        lease_owner: None,
        lease_generation: 4,
        last_error: Some(text("last")),
        disposition: None,
    }
}

fn job(status: &str) -> StoredExtractionJobRecord {
    decode_job(row(status)).expect("reads")
}

fn leased() -> StoredExtractionJobRecord {
    lease_extraction_job("worker", &fence(), Some(3), Some(job("pending")), 0, 10).expect("leased")
}

fn lease() -> StoredExtractionLeaseRecord {
    StoredExtractionLeaseRecord {
        job: leased(),
        source_events: Vec::new(),
        owner: text("worker"),
        generation: 5,
    }
}

#[test]
fn ranges_end_at_gaps() {
    let event = |sequence: i64| MarkedEvent {
        sequence,
        event_json: format!("{sequence}"),
        reads: true,
    };
    let ranges =
        source_work_ranges(&vec![event(2), event(3), event(5), event(7), event(8)]).expect("cut");
    let bounds: Vec<(u64, u64)> =
        ranges.iter().map(|range| (range.start_sequence, range.end_sequence)).collect();
    assert_eq!(bounds, vec![(2, 3), (5, 5), (7, 8)]);
    assert_eq!(ranges[2].events, vec!["7", "8"]);
    assert!(source_work_ranges(&Vec::new()).expect("none").is_empty());
    fails(
        source_work_ranges(&vec![event(2), event(-3)]),
        ErrorCode::InvalidSequence,
        "stored source-work sequence is negative",
    );
    let unread = MarkedEvent { reads: false, ..event(4) };
    fails(
        source_work_ranges(&vec![event(2), unread, event(-3)]),
        ErrorCode::InvalidPayload,
        "stored source event is invalid",
    );
}

#[test]
fn cursors_start_and_stay() {
    assert_eq!(extraction_cursor(None).expect("none"), 0);
    assert_eq!(extraction_cursor(Some(9)).expect("there"), 9);
    fails(
        extraction_cursor(Some(-1)),
        ErrorCode::InvalidSequence,
        "stored extraction cursor is negative",
    );
    fails(read_cursor(None), ErrorCode::InvalidPayload, "extraction cursor is missing");
    assert_eq!(ensure_extraction_cursor(4, &fence(), Some(3), None).expect("new"), 4);
    assert_eq!(ensure_extraction_cursor(4, &fence(), Some(3), Some(7)).expect("kept"), 7);
    assert_eq!(extraction_schedule_start(3, None).expect("start"), 4);
    assert_eq!(extraction_schedule_start(3, Some(8)).expect("start"), 9);
    assert_eq!(extraction_schedule_start(u64::MAX, None).expect("start"), u64::MAX);
    assert_eq!(check_page_limit(5).expect("page"), 5);
    fails(
        check_page_limit(0),
        ErrorCode::InvalidPayload,
        "memory source page limit must be positive",
    );
}

#[test]
fn job_ranges_are_disjoint() {
    let insert = |job: &StoredExtractionJobRecord, start_sequence: i64, end_sequence: i64| {
        let there = vec![JobRange { start_sequence, end_sequence }];
        insert_extraction_job(job, &fence(), Some(3), &there)
    };
    assert!(insert(&job("pending"), 1, 4).is_ok());
    assert!(insert(&job("pending"), 7, 9).is_ok());
    fails(
        insert(&job("pending"), 6, 9),
        ErrorCode::IdempotencyConflict,
        "extraction source ranges must not overlap",
    );
    let mut short = job("pending");
    short.source_event_ids.pop();
    fails(
        insert(&short, 1, 2),
        ErrorCode::InvalidPayload,
        "extraction job range is invalid",
    );
    let mut zero = job("pending");
    zero.start_sequence = 0;
    fails(
        insert(&zero, 9, 9),
        ErrorCode::InvalidPayload,
        "extraction job range is invalid",
    );
}

#[test]
fn waiting_jobs_are_leased() {
    let held = leased();
    assert_eq!(held.status, "leased");
    assert_eq!((held.attempts, held.lease_generation), (2, 5));
    assert_eq!(held.last_error, None);
    let take = |status: &str, due: i64| {
        lease_extraction_job("worker", &fence(), Some(3), Some(job(status)), due, 10)
    };
    assert!(take("retry_wait", 10).is_ok());
    fails(
        take("retry_wait", 11),
        ErrorCode::RuntimeCommandConflict,
        "extraction job is not leaseable",
    );
    fails(
        take("completed", 0),
        ErrorCode::RuntimeCommandConflict,
        "extraction job is not leaseable",
    );
    fails(
        lease_extraction_job(" ", &fence(), Some(3), Some(job("pending")), 0, 10),
        ErrorCode::InvalidPayload,
        "lease owner is required",
    );
}

#[test]
fn a_newer_lease_ends_the_older() {
    assert!(assert_job_lease(&lease(), &Some(leased())).is_ok());
    let mut waiting = leased();
    let recovered = recover_extraction_jobs(vec![mark(&waiting), mark(&job("blocked"))], &fence(), Some(3))
        .expect("recovered");
    assert_eq!((recovered.count, recovered.changed), (1, vec![true, false]));
    assert_eq!(recovered.jobs[1], mark(&job("blocked")));
    waiting.status = recovered.jobs[0].status.clone();
    waiting.lease_owner = recovered.jobs[0].lease_owner.clone();
    assert_eq!((waiting.status.as_str(), &waiting.lease_owner), ("pending", &None));
    assert!(recover_extraction_jobs(Vec::new(), &fence(), Some(4)).is_err());
    let again = lease_extraction_job("other", &fence(), Some(3), Some(waiting), 0, 10).expect("again");
    fails(
        assert_job_lease(&lease(), &Some(again)),
        ErrorCode::StaleWriter,
        "extraction lease owner or generation is stale",
    );
    let mut altered = leased();
    altered.end_sequence = 9;
    fails(
        assert_job_lease(&lease(), &Some(altered)),
        ErrorCode::StaleWriter,
        "immutable extraction range was altered",
    );
    fails(
        assert_job_lease(&lease(), &None),
        ErrorCode::StaleWriter,
        "extraction job missing",
    );
}

fn settle(
    assets: Vec<ExtractedAsset>,
    disposition: &str,
    cursor: i64,
) -> Result<(String, u64), StoreError> {
    settle_extraction_assets(
        &lease(),
        &assets,
        disposition,
        &fence(),
        Some(3),
        Some(leased()),
        Some(cursor),
    )
    .map(|settled| {
        let before = leased();
        let disposition = settled.job.disposition.clone();
        let after = StoredExtractionJobRecord {
            status: text("completed"),
            lease_owner: None,
            disposition: disposition.clone(),
            ..before
        };
        assert_eq!(settled.job, after);
        (disposition.expect("said"), settled.cursor)
    })
}

#[test]
fn the_cursor_moves_without_gaps() {
    assert_eq!(settle(vec![], "filtered", 4).expect("settled"), (text("filtered"), 6));
    fails(
        settle(vec![], "filtered", 3),
        ErrorCode::SequenceConflict,
        "extraction settlement cannot advance across a cursor gap",
    );
    fails(
        settle(vec![], "filtered", 6),
        ErrorCode::SequenceConflict,
        "extraction settlement cannot advance across a cursor gap",
    );
}

#[test]
fn a_settlement_says_what_the_range_gave() {
    let asset = |event: &str| {
        let mut extracted = record("owner", 1);
        extracted.current.record.source_event_refs = vec![text(event)];
        ExtractedAsset { record: extracted, verdicts: accepted() }
    };
    assert_eq!(settle(vec![], "candidates", 4).expect("empty").0, "no_facts");
    assert_eq!(settle(vec![], "self_referential", 4).expect("echo").0, "self_referential");
    assert_eq!(settle(vec![asset("e2")], "no_facts", 4).expect("found").0, "candidates");
    fails(
        settle(vec![asset("e2"), asset("e3")], "candidates", 4),
        ErrorCode::InvalidPayload,
        "extracted asset has foreign sources",
    );
    fails(
        settle(vec![], "unknown", 4),
        ErrorCode::InvalidPayload,
        "unsupported extraction disposition",
    );
    let noted = note_known_proposals(leased(), 12);
    assert_eq!(noted.last_error.as_deref(), Some("12 proposed candidate(s) already existed"));
}

#[test]
fn failed_jobs_wait_longer_each_time() {
    let delays: Vec<i64> = (0..11).map(failure_delay_ms).collect();
    assert_eq!(
        delays,
        vec![100, 200, 400, 800, 1600, 3200, 6400, 12800, 25600, 51200, 51200]
    );
    assert_eq!(next_due("retry_wait", 2, 1_000, 7), 1_407);
    assert_eq!(next_due("blocked", 2, 1_000, 7), 0);
    let fail = |status: &str| {
        fail_extraction_job(
            &lease(),
            status,
            "broken",
            &fence(),
            Some(3),
            Some(leased()),
            1_000,
            7,
        )
    };
    let failed = fail("retry_wait").expect("given up");
    let delay = failure_delay_ms(leased().attempts);
    assert_eq!(failed.next_due_unix_ms, 1_007 + delay);
    assert_eq!(
        failed.job,
        StoredExtractionJobRecord {
            status: text("retry_wait"),
            last_error: Some(text("broken")),
            lease_owner: None,
            ..leased()
        }
    );
    assert_eq!(fail("blocked").expect("blocked").next_due_unix_ms, 0);
    assert!(fail("dead_letter").is_ok());
    fails(
        fail("completed"),
        ErrorCode::InvalidPayload,
        "invalid extraction failure state",
    );
}

#[test]
fn waiting_jobs_are_paused() {
    let pause = |extractor: &str| {
        let jobs = vec![mark(&job("retry_wait")), mark(&leased()), mark(&job("paused"))];
        let (stream, strategy) = (jobs[0].source_stream.clone(), jobs[0].strategy_digest.clone());
        pause_extraction_jobs(jobs, &stream, extractor, &strategy, &fence(), Some(3)).expect("paused")
    };
    let paused = pause(&job("pending").extractor_version);
    assert_eq!((paused.count, paused.changed), (2, vec![true, false, true]));
    assert_eq!(paused.jobs[0].status, "paused");
    assert_eq!(paused.jobs[0].last_error.as_deref(), Some("budget_or_shutdown"));
    assert_eq!(paused.jobs[1], mark(&leased()));
    let left = pause("another");
    assert_eq!((left.count, left.changed), (0, vec![false, false, false]));
    assert_eq!(left.jobs[0], mark(&job("retry_wait")));
}

fn mark(job: &StoredExtractionJobRecord) -> JobMark {
    JobMark {
        job_id: job.job_id.clone(),
        source_stream: job.source_stream.clone(),
        extractor_version: job.extractor_version.clone(),
        strategy_digest: job.strategy_digest.clone(),
        status: job.status.clone(),
        lease_owner: job.lease_owner.clone(),
        last_error: job.last_error.clone(),
    }
}

#[test]
fn jobs_are_read_back() {
    assert_eq!(job("pending").source_event_ids, vec!["e1", "e2"]);
    let mut broken = row("pending");
    broken.source_ids_json = text("[1]");
    fails(
        decode_job(broken),
        ErrorCode::InvalidPayload,
        "stored extraction source IDs are invalid",
    );
    let mut negative = row("pending");
    negative.attempts = -1;
    fails(decode_job(negative), ErrorCode::InvalidSequence, "job attempts are invalid");
}
