use akane::chunks::accept_chunk;
use akane::progress::{
    cancelled_frame, clone_progress, completed_frame, encoding_frame, failed_frame,
    initializing_frame, percentage_of, progress_response, queued_frame, receiving_frame,
    status_is_active, status_is_terminal, stored_frame, storing_frame, variant_finished_frame,
    variant_started_frame,
};
use akane::queue::{
    cancel_queue, is_authorized, is_cancellable, list_queues, progress_stream_step,
    remove_if_terminal, stream_authorized, CancelError, StreamStep, CLEANUP_DELAY_MS,
    CLOSE_DELAY_MS, POLL_INTERVAL_MS, START_TIMEOUT_MS,
};
use akane::registry::{update_progress, ProgressRegistry};
use akane::string_map::StringMap;
use akane::types::{ChunkedUpload, ProgressUpdate, UploadResponse};

fn entry(stage: &str, status: &str, created_at: u64) -> ProgressUpdate {
    ProgressUpdate {
        stage: stage.to_string(),
        current_chunk: 0,
        total_chunks: 1,
        percentage: 0,
        details: None,
        status: status.to_string(),
        result: None,
        error: None,
        video_name: Some("v".to_string()),
        created_at,
    }
}

fn ids(registry: &ProgressRegistry) -> Vec<String> {
    registry.snapshot().into_iter().map(|(id, _)| id).collect()
}

#[test]
fn created_at_is_kept_across_upserts() {
    let mut r = ProgressRegistry::new();
    r.upsert("U1", entry("Queued for processing", "processing", 100), 5);
    assert_eq!(r.get("U1").unwrap().created_at, 100);
    r.upsert("U1", entry("FFmpeg processing", "processing", 0), 900);
    assert_eq!(r.get("U1").unwrap().created_at, 100);
    assert_eq!(r.get("U1").unwrap().stage, "FFmpeg processing");
    r.upsert("U1", entry("Completed", "completed", 777), 901);
    assert_eq!(r.get("U1").unwrap().created_at, 100);
    assert_eq!(r.len(), 1);
}

#[test]
fn a_new_entry_without_creation_time_gets_the_clock() {
    let mut r = ProgressRegistry::new();
    r.upsert("U1", entry("Initializing upload", "initializing", 0), 1234);
    assert_eq!(r.get("U1").unwrap().created_at, 1234);
    r.upsert("U2", entry("Initializing upload", "initializing", 50), 9999);
    assert_eq!(r.get("U2").unwrap().created_at, 50);
}

#[test]
fn update_progress_reads_the_clock_for_a_new_entry() {
    let mut r = ProgressRegistry::new();
    update_progress(&mut r, "U1", queued_frame("clip"));
    let first = r.get("U1").unwrap().created_at;
    assert!(first > 1_600_000_000_000);
    update_progress(&mut r, "U1", encoding_frame("clip", 2));
    assert_eq!(r.get("U1").unwrap().created_at, first);
    assert_eq!(r.get("U1").unwrap().stage, "FFmpeg processing");
}

#[test]
fn queue_ordering_scenario() {
    let mut r = ProgressRegistry::new();
    r.upsert("U1", entry("Queued for processing", "processing", 100), 0);
    r.upsert("U2", entry("Queued for processing", "processing", 200), 0);
    r.upsert("U3", entry("Queued for processing", "processing", 150), 0);
    assert_eq!(ids(&r), vec!["U1", "U3", "U2"]);
    let listing = list_queues(&r);
    let listed: Vec<&str> = listing.items.iter().map(|i| i.upload_id.as_str()).collect();
    assert_eq!(listed, vec!["U1", "U3", "U2"]);
    assert_eq!(listing.active_count, 3);
    assert_eq!(listing.completed_count, 0);
    assert_eq!(listing.failed_count, 0);
}

#[test]
fn entries_of_one_creation_time_keep_their_order_of_arrival() {
    let mut r = ProgressRegistry::new();
    r.upsert("b", entry("s", "processing", 7), 0);
    r.upsert("a", entry("s", "processing", 7), 0);
    r.upsert("c", entry("s", "processing", 3), 0);
    r.upsert("d", entry("s", "processing", 7), 0);
    assert_eq!(ids(&r), vec!["c", "b", "a", "d"]);
    r.upsert("a", entry("t", "processing", 1), 0);
    assert_eq!(ids(&r), vec!["c", "b", "a", "d"]);
}

#[test]
fn get_and_delete() {
    let mut r = ProgressRegistry::new();
    assert!(r.get("x").is_none());
    assert!(!r.contains("x"));
    r.upsert("x", entry("s", "processing", 1), 0);
    r.upsert("y", entry("s", "processing", 2), 0);
    assert!(r.contains("x"));
    r.delete("x");
    assert!(r.get("x").is_none());
    assert_eq!(r.get("y").unwrap().created_at, 2);
    r.delete("missing");
    assert_eq!(r.len(), 1);
}

#[test]
fn listing_counts_each_status() {
    let mut r = ProgressRegistry::new();
    r.upsert("a", entry("Initializing upload", "initializing", 1), 0);
    r.upsert("b", entry("FFmpeg processing", "processing", 2), 0);
    r.upsert("c", entry("Completed", "completed", 3), 0);
    r.upsert("d", entry("Failed", "failed", 4), 0);
    r.upsert("e", entry("Failed", "failed", 5), 0);
    r.upsert("f", entry("Odd", "paused", 6), 0);
    let l = list_queues(&r);
    assert_eq!(l.items.len(), 6);
    assert_eq!(l.active_count, 2);
    assert_eq!(l.completed_count, 1);
    assert_eq!(l.failed_count, 2);
    assert_eq!(l.items[1].stage, "FFmpeg processing");
    assert_eq!(l.items[1].video_name.as_deref(), Some("v"));
    assert_eq!(l.items[3].created_at, 4);
}

#[test]
fn cancel_of_a_job_in_the_encoder_is_a_conflict() {
    let mut r = ProgressRegistry::new();
    let mut uploads: StringMap<ChunkedUpload> = StringMap::new();
    r.upsert("U1", entry("FFmpeg processing", "processing", 10), 0);
    let err = cancel_queue(&mut r, &mut uploads, "U1", 20).unwrap_err();
    assert_eq!(err.status_code(), 409);
    assert_eq!(
        err.message(),
        "Cannot cancel: video is already being processed (stage: FFmpeg processing)"
    );
    assert!(matches!(err, CancelError::NotCancellable { .. }));
    assert_eq!(r.get("U1").unwrap().stage, "FFmpeg processing");
}

#[test]
fn cancel_of_an_unknown_upload_is_not_found() {
    let mut r = ProgressRegistry::new();
    let mut uploads: StringMap<ChunkedUpload> = StringMap::new();
    let err = cancel_queue(&mut r, &mut uploads, "nope", 20).unwrap_err();
    assert_eq!(err.status_code(), 404);
    assert_eq!(err.message(), "Queue item not found");
}

#[test]
fn cancel_of_an_early_upload_marks_it_failed_and_drops_its_chunks() {
    let mut r = ProgressRegistry::new();
    let mut uploads: StringMap<ChunkedUpload> = StringMap::new();
    let path = accept_chunk(&mut uploads, &mut r, "U1", 0, 3, "a.mp4", "/tmp", 500).unwrap();
    assert_eq!(path, "/tmp/chunked-U1/chunk_000000");
    let done = cancel_queue(&mut r, &mut uploads, "U1", 900).unwrap();
    assert!(done.response.cancelled);
    assert_eq!(done.response.message, "Queue item cancelled successfully");
    assert_eq!(done.scratch_dir.as_deref(), Some("/tmp/chunked-U1"));
    assert!(!uploads.contains_key("U1"));
    let e = r.get("U1").unwrap();
    assert_eq!(e.stage, "Cancelled");
    assert_eq!(e.status, "failed");
    assert_eq!(e.error.as_deref(), Some("Cancelled by user"));
    assert_eq!(e.details.as_deref(), Some("Cancelled by user"));
    assert_eq!(e.percentage, 0);
    assert_eq!(e.total_chunks, 3);
    assert_eq!(e.created_at, 500);
    assert_eq!(e.video_name.as_deref(), Some("a_mp4"));
    let again = cancel_queue(&mut r, &mut uploads, "U1", 901).unwrap_err();
    assert_eq!(again.status_code(), 409);
}

#[test]
fn which_states_may_be_cancelled() {
    assert!(is_cancellable(&entry("anything", "initializing", 1)));
    assert!(is_cancellable(&entry("Initializing upload", "processing", 1)));
    assert!(is_cancellable(&entry("Queued for processing", "processing", 1)));
    assert!(is_cancellable(&entry("Receiving chunks", "processing", 1)));
    assert!(!is_cancellable(&entry("FFmpeg processing", "processing", 1)));
    assert!(!is_cancellable(&entry("Upload to R2", "processing", 1)));
    assert!(!is_cancellable(&entry("Assembling file", "processing", 1)));
    assert!(!is_cancellable(&entry("Queued for processing", "completed", 1)));
    assert!(!is_cancellable(&entry("Receiving chunks", "failed", 1)));
}

#[test]
fn finished_entries_are_removed_and_others_stay() {
    assert_eq!(CLEANUP_DELAY_MS, 10_000);
    let mut r = ProgressRegistry::new();
    r.upsert("a", entry("Completed", "completed", 1), 0);
    r.upsert("b", entry("Failed", "failed", 2), 0);
    r.upsert("c", entry("FFmpeg processing", "processing", 3), 0);
    assert!(remove_if_terminal(&mut r, "a"));
    assert!(remove_if_terminal(&mut r, "b"));
    assert!(!remove_if_terminal(&mut r, "c"));
    assert!(!remove_if_terminal(&mut r, "missing"));
    assert_eq!(ids(&r), vec!["c"]);
}

#[test]
fn progress_stream_steps() {
    assert_eq!((POLL_INTERVAL_MS, START_TIMEOUT_MS, CLOSE_DELAY_MS), (500, 60_000, 3_000));
    assert!(matches!(progress_stream_step(None, 0), StreamStep::Wait));
    assert!(matches!(progress_stream_step(None, 60_000), StreamStep::Wait));
    assert!(matches!(progress_stream_step(None, 60_001), StreamStep::TimedOut));
    let running = entry("FFmpeg processing", "processing", 1);
    match progress_stream_step(Some(&running), 70_000) {
        StreamStep::Frame { response, last } => {
            assert!(!last);
            assert_eq!(response.stage, "FFmpeg processing");
            assert_eq!(response.status, "processing");
        }
        _ => panic!("expected a frame"),
    }
    let done = completed_frame(
        "clip",
        UploadResponse { player_url: "/player/x".into(), upload_id: "U".into() },
    );
    match progress_stream_step(Some(&done), 1) {
        StreamStep::Frame { response, last } => {
            assert!(last);
            assert_eq!(response.percentage, 100);
            assert_eq!(response.result.unwrap().player_url, "/player/x");
        }
        _ => panic!("expected a frame"),
    }
    let failed = failed_frame("clip", "boom");
    assert!(matches!(
        progress_stream_step(Some(&failed), 1),
        StreamStep::Frame { last: true, .. }
    ));
}

#[test]
fn credentials() {
    assert!(is_authorized(Some("Bearer pw"), "pw"));
    assert!(!is_authorized(Some("Bearer pw "), "pw"));
    assert!(!is_authorized(Some("bearer pw"), "pw"));
    assert!(!is_authorized(Some("pw"), "pw"));
    assert!(!is_authorized(None, "pw"));
    assert!(stream_authorized(Some("pw"), "pw"));
    assert!(!stream_authorized(Some("pw2"), "pw"));
    assert!(!stream_authorized(None, "pw"));
}

#[test]
fn percentages() {
    assert_eq!(percentage_of(0, 3), 0);
    assert_eq!(percentage_of(1, 3), 33);
    assert_eq!(percentage_of(2, 3), 66);
    assert_eq!(percentage_of(3, 3), 100);
    assert_eq!(percentage_of(4, 3), 100);
    assert_eq!(percentage_of(5, 0), 0);
    assert_eq!(percentage_of(1, 4), 25);
    assert_eq!(percentage_of(u32::MAX - 1, u32::MAX), 99);
    let mut last = 0;
    for done in 0..=50u32 {
        let p = percentage_of(done, 37);
        assert!(p >= last && p <= 100);
        last = p;
    }
}

#[test]
fn statuses() {
    assert!(status_is_terminal("completed"));
    assert!(status_is_terminal("failed"));
    assert!(!status_is_terminal("processing"));
    assert!(status_is_active("processing"));
    assert!(status_is_active("initializing"));
    assert!(!status_is_active("completed"));
    assert!(!status_is_active(""));
}

#[test]
fn frames_of_the_pipeline() {
    let f = initializing_frame();
    assert_eq!((f.stage.as_str(), f.status.as_str()), ("Initializing upload", "initializing"));
    assert_eq!(f.details.as_deref(), Some("Waiting for file data..."));
    assert_eq!((f.current_chunk, f.total_chunks, f.percentage, f.created_at), (0, 1, 0, 0));
    let f = receiving_frame(12345);
    assert_eq!(f.stage, "Uploading to server");
    assert_eq!(f.details.as_deref(), Some("Uploaded 12345 bytes"));
    let f = queued_frame("clip");
    assert_eq!(f.stage, "Queued for processing");
    assert_eq!(f.video_name.as_deref(), Some("clip"));
    assert!(f.details.is_none());
    let f = encoding_frame("clip", 3);
    assert_eq!((f.stage.as_str(), f.total_chunks), ("FFmpeg processing", 3));
    assert_eq!(f.details.as_deref(), Some("Starting encoding..."));
    let f = storing_frame("clip");
    assert_eq!(f.stage, "Upload to R2");
    assert_eq!(f.details.as_deref(), Some("Uploading segments to storage..."));
    let f = stored_frame(7, 20, Some("clip"));
    assert_eq!((f.current_chunk, f.total_chunks, f.percentage), (7, 20, 35));
    assert_eq!(f.details.as_deref(), Some("Uploaded 7/20 files"));
    assert_eq!(stored_frame(1, 1, None).video_name, None);
}

#[test]
fn variant_frames_keep_name_and_creation_time() {
    let mut existing = queued_frame("clip");
    existing.created_at = 77;
    let f = variant_started_frame(1, 3, "720p", 720, Some(&existing));
    assert_eq!(f.stage, "FFmpeg processing");
    assert_eq!(f.details.as_deref(), Some("Encoding variant: 720p (720p)"));
    assert_eq!((f.current_chunk, f.total_chunks, f.percentage), (1, 3, 33));
    assert_eq!(f.video_name.as_deref(), Some("clip"));
    assert_eq!(f.created_at, 77);
    let g = variant_finished_frame(2, 3, "720p", Some(&existing));
    assert_eq!(g.details.as_deref(), Some("Encoded variant: 720p"));
    assert_eq!((g.percentage, g.created_at), (66, 77));
    let h = variant_finished_frame(3, 3, "1080p", None);
    assert_eq!((h.percentage, h.created_at), (100, 0));
    assert_eq!(h.video_name, None);
}

#[test]
fn last_frames_have_zero_or_hundred_percent() {
    let done = completed_frame(
        "clip",
        UploadResponse { player_url: "/player/x".into(), upload_id: "U".into() },
    );
    assert_eq!((done.stage.as_str(), done.status.as_str(), done.percentage), ("Completed", "completed", 100));
    assert_eq!((done.current_chunk, done.total_chunks), (1, 1));
    assert_eq!(done.details.as_deref(), Some("Upload and processing complete"));
    let failed = failed_frame("clip", "ffprobe failed");
    assert_eq!((failed.stage.as_str(), failed.status.as_str(), failed.percentage), ("Failed", "failed", 0));
    assert_eq!(failed.error.as_deref(), Some("ffprobe failed"));
    assert_eq!(failed.details.as_deref(), Some("Processing failed: ffprobe failed"));
    let cancelled = cancelled_frame(&entry("Receiving chunks", "processing", 9));
    assert_eq!((cancelled.status.as_str(), cancelled.percentage, cancelled.created_at), ("failed", 0, 9));
}

#[test]
fn copies_and_responses() {
    let mut e = entry("s", "processing", 4);
    e.details = Some("d".into());
    e.error = Some("e".into());
    e.result = Some(UploadResponse { player_url: "p".into(), upload_id: "u".into() });
    let c = clone_progress(&e);
    assert_eq!(format!("{:?}", c), format!("{:?}", e));
    let r = progress_response(&e);
    assert_eq!(r.stage, "s");
    assert_eq!(r.details.as_deref(), Some("d"));
    assert_eq!(r.error.as_deref(), Some("e"));
    assert_eq!(r.result.unwrap().upload_id, "u");
}
