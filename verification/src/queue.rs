//! The queue as the administrator sees it: the listing, the rule of cancellation,
//! the steps of the progress stream and the removal of finished entries.

use crate::chunks::{cancel_if_reassembling, records, records_ok};
use crate::progress::{
    cancelled_frame, cancelled_view, is_active, is_terminal, progress_response, response_of,
    status_is_active, status_is_terminal,
};
use crate::registry::{deleted, lookup, upserted, Entry, ProgressRegistry};
use crate::string_map::StringMap;
use crate::text::{clone_opt, concat2, concat3, str_eq};
use crate::types::{
    CancelQueueResponse, ChunkedUpload, ProgressResponse, ProgressUpdate, ProgressView,
    QueueItem, QueueItemView, QueueListResponse,
};
use vstd::prelude::*;
use vstd::string::*;

verus! {

// ---------------------------------------------------------------------------
// The listing
// ---------------------------------------------------------------------------

/// An entry as the listing shows it.
pub open spec fn item_of(entry: Entry) -> QueueItemView {
    QueueItemView {
        upload_id: entry.0,
        stage: entry.1.stage,
        current_chunk: entry.1.current_chunk,
        total_chunks: entry.1.total_chunks,
        percentage: entry.1.percentage,
        details: entry.1.details,
        status: entry.1.status,
        video_name: entry.1.video_name,
        created_at: entry.1.created_at,
    }
}

/// A count as the listing shows it: itself, or the largest number that fits.
pub open spec fn shown_count(n: nat) -> u32 {
    if n > u32::MAX {
        u32::MAX
    } else {
        n as u32
    }
}

/// The number of entries whose upload is under way.
pub open spec fn count_active(entries: Seq<Entry>) -> nat {
    entries.filter(|e: Entry| is_active(e.1.status)).len()
}

/// The number of entries whose upload succeeded.
pub open spec fn count_completed(entries: Seq<Entry>) -> nat {
    entries.filter(|e: Entry| e.1.status == "completed"@).len()
}

/// The number of entries whose upload failed or was cancelled.
pub open spec fn count_failed(entries: Seq<Entry>) -> nat {
    entries.filter(|e: Entry| e.1.status == "failed"@).len()
}

/// The views of a sequence of items.
pub open spec fn items_view(items: Seq<QueueItem>) -> Seq<QueueItemView> {
    items.map_values(|i: QueueItem| i@)
}

fn bump(n: u32) -> (m: u32)
    ensures
        m == shown_count(n as nat + 1),
{
    if n < u32::MAX {
        n + 1
    } else {
        n
    }
}

/// Lists the queue: every entry, the oldest upload first, and how many uploads
/// are under way, have succeeded and have failed.
pub fn list_queues(registry: &ProgressRegistry) -> (r: QueueListResponse)
    requires
        registry.wf(),
    ensures
        items_view(r.items@) == registry@.map_values(|e: Entry| item_of(e)),
        forall|i: int, j: int|
            0 <= i <= j < r.items@.len() ==> (#[trigger] r.items@[i]).created_at <= (
            #[trigger] r.items@[j]).created_at,
        r.active_count == shown_count(count_active(registry@)),
        r.completed_count == shown_count(count_completed(registry@)),
        r.failed_count == shown_count(count_failed(registry@)),
{
    let entries = registry.snapshot();
    let ghost all = registry@;
    let ghost active = |e: Entry| is_active(e.1.status);
    let ghost completed = |e: Entry| e.1.status == "completed"@;
    let ghost failed = |e: Entry| e.1.status == "failed"@;
    let mut items: Vec<QueueItem> = Vec::new();
    let mut active_count: u32 = 0;
    let mut completed_count: u32 = 0;
    let mut failed_count: u32 = 0;
    let mut i: usize = 0;
    proof {
        reveal(Seq::filter);
        assert(all.take(0) =~= Seq::<Entry>::empty());
    }
    while i < entries.len()
        invariant
            i <= entries@.len(),
            all == registry@,
            entries@.len() == all.len(),
            forall|k: int|
                0 <= k < entries@.len() ==> (#[trigger] entries@[k]).0@ == all[k].0
                    && entries@[k].1@ == all[k].1,
            active == (|e: Entry| is_active(e.1.status)),
            completed == (|e: Entry| e.1.status == "completed"@),
            failed == (|e: Entry| e.1.status == "failed"@),
            items@.len() == i,
            forall|k: int| 0 <= k < i ==> (#[trigger] items@[k])@ == item_of(all[k]),
            active_count == shown_count(all.take(i as int).filter(active).len()),
            completed_count == shown_count(all.take(i as int).filter(completed).len()),
            failed_count == shown_count(all.take(i as int).filter(failed).len()),
        decreases entries@.len() - i,
    {
        let id = &entries[i].0;
        let p = &entries[i].1;
        proof {
            reveal(Seq::filter);
            let next = all.take(i as int + 1);
            assert(next.drop_last() =~= all.take(i as int));
            assert(next.last() == all[i as int]);
            assert(p@ == all[i as int].1);
        }
        items.push(
            QueueItem {
                upload_id: id.clone(),
                stage: p.stage.clone(),
                current_chunk: p.current_chunk,
                total_chunks: p.total_chunks,
                percentage: p.percentage,
                details: clone_opt(&p.details),
                status: p.status.clone(),
                video_name: clone_opt(&p.video_name),
                created_at: p.created_at,
            },
        );
        if status_is_active(p.status.as_str()) {
            active_count = bump(active_count);
        }
        if str_eq(p.status.as_str(), "completed") {
            completed_count = bump(completed_count);
        }
        if str_eq(p.status.as_str(), "failed") {
            failed_count = bump(failed_count);
        }
        i += 1;
    }
    proof {
        assert(all.take(i as int) =~= all);
        assert(items_view(items@) =~= all.map_values(|e: Entry| item_of(e)));
        assert forall|a: int, b: int| 0 <= a <= b < items@.len() implies (
        #[trigger] items@[a]).created_at <= (#[trigger] items@[b]).created_at by {
            assert(items@[a]@ == item_of(all[a]));
            assert(items@[b]@ == item_of(all[b]));
            assert(entries@[a].1@ == all[a].1);
            assert(entries@[b].1@ == all[b].1);
        }
    }
    QueueListResponse { items, active_count, completed_count, failed_count }
}

// ---------------------------------------------------------------------------
// Cancellation
// ---------------------------------------------------------------------------

/// Whether an upload in this state may still be cancelled: it is initializing, or
/// it is processing and has not left the stages before the encoder.
pub open spec fn cancellable(p: ProgressView) -> bool {
    p.status == "initializing"@ || (p.status == "processing"@ && (p.stage
        == "Initializing upload"@ || p.stage == "Queued for processing"@ || p.stage
        == "Receiving chunks"@))
}

/// Whether an upload in this state may still be cancelled.
pub fn is_cancellable(p: &ProgressUpdate) -> (r: bool)
    ensures
        r == cancellable(p@),
{
    let status = p.status.as_str();
    let stage = p.stage.as_str();
    str_eq(status, "initializing") || (str_eq(status, "processing") && (str_eq(
        stage,
        "Initializing upload",
    ) || str_eq(stage, "Queued for processing") || str_eq(stage, "Receiving chunks")))
}

/// Why a cancellation was refused.
#[derive(Debug, Clone)]
pub enum CancelError {
    /// No entry is stored under the id.
    NotFound,
    /// The upload has gone too far; `stage` is where it stands.
    NotCancellable { stage: String },
}

impl CancelError {
    /// The HTTP status that answers the error.
    pub fn status_code(&self) -> (code: u16)
        ensures
            code == match *self {
                CancelError::NotFound => 404u16,
                CancelError::NotCancellable { .. } => 409u16,
            },
    {
        match self {
            CancelError::NotFound => 404,
            CancelError::NotCancellable { .. } => 409,
        }
    }

    /// The text that answers the error.
    pub fn message(&self) -> (m: String)
        ensures
            m@ == match *self {
                CancelError::NotFound => "Queue item not found"@,
                CancelError::NotCancellable { stage } =>
                    "Cannot cancel: video is already being processed (stage: "@ + stage@ + ")"@,
            },
    {
        match self {
            CancelError::NotFound => String::from_str("Queue item not found"),
            CancelError::NotCancellable { stage } => concat3(
                "Cannot cancel: video is already being processed (stage: ",
                stage.as_str(),
                ")",
            ),
        }
    }
}

/// A cancellation that was carried out.
#[derive(Debug, Clone)]
pub struct Cancellation {
    /// The answer to the administrator.
    pub response: CancelQueueResponse,
    /// The scratch directory of the upload's chunks, to be deleted, if it had one.
    pub scratch_dir: Option<String>,
}

/// Cancels an upload.
///
/// An upload that may still be cancelled gets the entry of a cancelled upload, a
/// failure with the error `Cancelled by user`, and is taken out of reassembly. An
/// upload that has gone further, or that is unknown, is left as it is.
pub fn cancel_queue(
    registry: &mut ProgressRegistry,
    uploads: &mut StringMap<ChunkedUpload>,
    upload_id: &str,
    now: u64,
) -> (r: Result<Cancellation, CancelError>)
    requires
        old(registry).wf(),
        old(uploads).wf(),
        records_ok(records(old(uploads))),
    ensures
        final(registry).wf(),
        final(uploads).wf(),
        records_ok(records(final(uploads))),
        match r {
            Ok(done) => {
                let before = lookup(old(registry)@, upload_id@);
                &&& before matches Some(p) && cancellable(p)
                &&& final(registry)@ == upserted(
                    old(registry)@,
                    upload_id@,
                    cancelled_view(before->0),
                    now,
                )
                &&& records(final(uploads)) == records(old(uploads)).remove(upload_id@)
                &&& done.response.cancelled
                &&& done.response.message@ == "Queue item cancelled successfully"@
                &&& match done.scratch_dir {
                    Some(d) => records(old(uploads)).dom().contains(upload_id@) && d@ == records(
                        old(uploads),
                    )[upload_id@].temp_dir,
                    None => !records(old(uploads)).dom().contains(upload_id@),
                }
            },
            Err(e) => {
                &&& match e {
                    CancelError::NotFound => lookup(old(registry)@, upload_id@) is None,
                    CancelError::NotCancellable { stage } => lookup(old(registry)@, upload_id@)
                        matches Some(p) && !cancellable(p) && stage@ == p.stage,
                }
                &&& final(registry)@ == old(registry)@
                &&& records(final(uploads)) == records(old(uploads))
            },
        },
{
    let existing = match registry.get(upload_id) {
        Some(p) => p,
        None => {
            return Err(CancelError::NotFound);
        },
    };
    if !is_cancellable(&existing) {
        return Err(CancelError::NotCancellable { stage: existing.stage.clone() });
    }
    let frame = cancelled_frame(&existing);
    registry.upsert(upload_id, frame, now);
    let scratch_dir = cancel_if_reassembling(uploads, upload_id);
    Ok(
        Cancellation {
            response: CancelQueueResponse {
                cancelled: true,
                message: String::from_str("Queue item cancelled successfully"),
            },
            scratch_dir,
        },
    )
}

// ---------------------------------------------------------------------------
// Removal of finished entries
// ---------------------------------------------------------------------------

/// How long a finished entry stays in the registry, so that late subscribers of
/// the progress stream see it, in milliseconds.
pub const CLEANUP_DELAY_MS: u64 = 10_000;

/// Removes the entry of an upload if it has finished. Called
/// [`CLEANUP_DELAY_MS`] after the last entry was written; an entry that has been
/// given a status under way in the meantime stays.
pub fn remove_if_terminal(registry: &mut ProgressRegistry, upload_id: &str) -> (removed: bool)
    requires
        old(registry).wf(),
    ensures
        final(registry).wf(),
        removed == (lookup(old(registry)@, upload_id@) matches Some(p) && is_terminal(p.status)),
        final(registry)@ == if removed {
            deleted(old(registry)@, upload_id@)
        } else {
            old(registry)@
        },
{
    match registry.get(upload_id) {
        Some(p) => {
            if status_is_terminal(p.status.as_str()) {
                registry.delete(upload_id);
                true
            } else {
                false
            }
        },
        None => false,
    }
}

// ---------------------------------------------------------------------------
// The progress stream
// ---------------------------------------------------------------------------

/// How long the stream waits between two looks at the registry, in milliseconds.
pub const POLL_INTERVAL_MS: u64 = 500;

/// How long the stream waits for an upload to appear, in milliseconds.
pub const START_TIMEOUT_MS: u64 = 60_000;

/// How long the stream stays open after the last frame, in milliseconds.
pub const CLOSE_DELAY_MS: u64 = 3_000;

/// What the stream does after one look at the registry.
#[derive(Debug, Clone)]
pub enum StreamStep {
    /// Send the frame; then close after [`CLOSE_DELAY_MS`] if it is the last one,
    /// or look again after [`POLL_INTERVAL_MS`].
    Frame { response: ProgressResponse, last: bool },
    /// Nothing to send yet: look again after [`POLL_INTERVAL_MS`].
    Wait,
    /// The upload never appeared: send an error event and close.
    TimedOut,
}

/// Decides the next step of the progress stream of an upload, given the entry
/// found in the registry, if any, and the time since the stream was opened.
pub fn progress_stream_step(entry: Option<&ProgressUpdate>, waited_ms: u64) -> (step: StreamStep)
    ensures
        match entry {
            Some(p) => step matches StreamStep::Frame { response, last } && response@
                == response_of(p@) && last == is_terminal(p@.status),
            None => if waited_ms > START_TIMEOUT_MS {
                step is TimedOut
            } else {
                step is Wait
            },
        },
{
    match entry {
        Some(p) => StreamStep::Frame {
            response: progress_response(p),
            last: status_is_terminal(p.status.as_str()),
        },
        None => if waited_ms > START_TIMEOUT_MS {
            StreamStep::TimedOut
        } else {
            StreamStep::Wait
        },
    }
}

// ---------------------------------------------------------------------------
// The administrator's credential
// ---------------------------------------------------------------------------

/// What the `Authorization` header must hold.
pub open spec fn bearer(admin_password: Seq<char>) -> Seq<char> {
    "Bearer "@ + admin_password
}

/// Whether a request carries the administrator's credential in its
/// `Authorization` header.
pub fn is_authorized(authorization: Option<&str>, admin_password: &str) -> (ok: bool)
    ensures
        ok == (authorization matches Some(h) && h@ == bearer(admin_password@)),
{
    match authorization {
        Some(h) => {
            let expected = concat2("Bearer ", admin_password);
            str_eq(h, expected.as_str())
        },
        None => false,
    }
}

/// Whether a request for the progress stream carries the administrator's
/// password in its `token` parameter.
pub fn stream_authorized(token: Option<&str>, admin_password: &str) -> (ok: bool)
    ensures
        ok == (token matches Some(t) && t@ == admin_password@),
{
    match token {
        Some(t) => str_eq(t, admin_password),
        None => false,
    }
}

} // verus!
