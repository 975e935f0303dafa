//! Progress frames: the entries that the stages of the pipeline write, one
//! constructor for each, and the arithmetic of the percentage.

use crate::text::{clone_opt, concat2, opt_chars, decimal, push_decimal, str_eq};
use crate::types::{
    ProgressResponse, ProgressResponseView, ProgressUpdate, ProgressView, UploadResponse,
    UploadResponseView,
};
use vstd::prelude::*;
use vstd::string::*;

verus! {

// ---------------------------------------------------------------------------
// Status
// ---------------------------------------------------------------------------

/// Whether `status` is one of the two from which an upload does not move on.
pub open spec fn is_terminal(status: Seq<char>) -> bool {
    status == "completed"@ || status == "failed"@
}

/// Whether `status` says that the upload is still under way.
pub open spec fn is_active(status: Seq<char>) -> bool {
    status == "processing"@ || status == "initializing"@
}

/// Whether an upload with this status will not move on.
pub fn status_is_terminal(status: &str) -> (r: bool)
    ensures
        r == is_terminal(status@),
{
    str_eq(status, "completed") || str_eq(status, "failed")
}

/// Whether an upload with this status is still under way.
pub fn status_is_active(status: &str) -> (r: bool)
    ensures
        r == is_active(status@),
{
    str_eq(status, "processing") || str_eq(status, "initializing")
}

// ---------------------------------------------------------------------------
// Percentages
// ---------------------------------------------------------------------------

/// The share of `total` that `done` is, in whole percent, rounded down: `0` where
/// there is nothing to do, `100` where all is done.
pub open spec fn percent(done: nat, total: nat) -> nat {
    if total == 0 {
        0
    } else if done >= total {
        100
    } else {
        done * 100 / total
    }
}

/// The share of `total` that `done` is, in whole percent.
pub fn percentage_of(done: u32, total: u32) -> (p: u32)
    ensures
        p == percent(done as nat, total as nat),
        p <= 100,
{
    if total == 0 {
        0
    } else if done >= total {
        100
    } else {
        let p = (done as u64 * 100) / (total as u64);
        assert(p < 100) by (nonlinear_arith)
            requires
                p == (done as int * 100) / (total as int),
                done < total,
                total > 0,
        ;
        p as u32
    }
}

/// The percentage never exceeds 100 and never falls while the work done grows.
pub proof fn lemma_percent_monotonic(a: nat, b: nat, total: nat)
    requires
        a <= b,
    ensures
        percent(a, total) <= percent(b, total) <= 100,
{
    if total > 0 {
        if b < total {
            assert(a * 100 / total <= b * 100 / total) by (nonlinear_arith)
                requires
                    a <= b,
                    total > 0,
            ;
            assert(b * 100 / total < 100) by (nonlinear_arith)
                requires
                    b < total,
                    total > 0,
            ;
        } else if a < total {
            assert(a * 100 / total < 100) by (nonlinear_arith)
                requires
                    a < total,
                    total > 0,
            ;
        }
    }
}

// ---------------------------------------------------------------------------
// Copies
// ---------------------------------------------------------------------------

/// A copy of an upload's result.
pub fn clone_response(r: &UploadResponse) -> (c: UploadResponse)
    ensures
        c@ == r@,
{
    UploadResponse { player_url: r.player_url.clone(), upload_id: r.upload_id.clone() }
}

/// A copy of an entry.
pub fn clone_progress(p: &ProgressUpdate) -> (c: ProgressUpdate)
    ensures
        c@ == p@,
{
    ProgressUpdate {
        stage: p.stage.clone(),
        current_chunk: p.current_chunk,
        total_chunks: p.total_chunks,
        percentage: p.percentage,
        details: clone_opt(&p.details),
        status: p.status.clone(),
        result: match &p.result {
            Some(r) => Some(clone_response(r)),
            None => None,
        },
        error: clone_opt(&p.error),
        video_name: clone_opt(&p.video_name),
        created_at: p.created_at,
    }
}

/// The frame that the progress stream sends for an entry: the entry without its
/// video name and creation time.
pub open spec fn response_of(p: ProgressView) -> ProgressResponseView {
    ProgressResponseView {
        stage: p.stage,
        current_chunk: p.current_chunk,
        total_chunks: p.total_chunks,
        percentage: p.percentage,
        details: p.details,
        status: p.status,
        result: p.result,
        error: p.error,
    }
}

/// Makes the frame that the progress stream sends for an entry.
pub fn progress_response(p: &ProgressUpdate) -> (r: ProgressResponse)
    ensures
        r@ == response_of(p@),
{
    ProgressResponse {
        stage: p.stage.clone(),
        current_chunk: p.current_chunk,
        total_chunks: p.total_chunks,
        percentage: p.percentage,
        details: clone_opt(&p.details),
        status: p.status.clone(),
        result: match &p.result {
            Some(r) => Some(clone_response(r)),
            None => None,
        },
        error: clone_opt(&p.error),
    }
}

// ---------------------------------------------------------------------------
// Frames
// ---------------------------------------------------------------------------

/// An entry of an upload under way: no result, no error, and no creation time of
/// its own, so that the registry keeps or assigns one.
pub open spec fn working_frame(
    stage: Seq<char>,
    current: u32,
    total: u32,
    percentage: u32,
    details: Option<Seq<char>>,
    status: Seq<char>,
    video_name: Option<Seq<char>>,
) -> ProgressView {
    ProgressView {
        stage,
        current_chunk: current,
        total_chunks: total,
        percentage,
        details,
        status,
        result: None,
        error: None,
        video_name,
        created_at: 0,
    }
}

pub(crate) fn make_frame(
    stage: &str,
    current: u32,
    total: u32,
    percentage: u32,
    details: Option<String>,
    status: &str,
    video_name: Option<String>,
) -> (f: ProgressUpdate)
    ensures
        f@ == working_frame(
            stage@,
            current,
            total,
            percentage,
            opt_chars(details),
            status@,
            opt_chars(video_name),
        ),
{
    ProgressUpdate {
        stage: String::from_str(stage),
        current_chunk: current,
        total_chunks: total,
        percentage,
        details,
        status: String::from_str(status),
        result: None,
        error: None,
        video_name,
        created_at: 0,
    }
}

/// What an entry must satisfy at all times: a percentage of at most 100 and one
/// of the four statuses.
pub open spec fn frame_ok(p: ProgressView) -> bool {
    p.percentage <= 100 && (is_active(p.status) || is_terminal(p.status))
}

/// The first entry of a plain upload, written before any byte has arrived.
pub fn initializing_frame() -> (f: ProgressUpdate)
    ensures
        f@ == working_frame(
            "Initializing upload"@,
            0,
            1,
            0,
            Some("Waiting for file data..."@),
            "initializing"@,
            None,
        ),
        frame_ok(f@),
{
    make_frame(
        "Initializing upload",
        0,
        1,
        0,
        Some(String::from_str("Waiting for file data...")),
        "initializing",
        None,
    )
}

/// What the details of an entry say while the bytes of a plain upload arrive.
pub open spec fn received_bytes_text(total_bytes: nat) -> Seq<char> {
    "Uploaded "@ + decimal(total_bytes) + " bytes"@
}

/// The entry written while the bytes of a plain upload arrive.
pub fn receiving_frame(total_bytes: u64) -> (f: ProgressUpdate)
    ensures
        f@ == working_frame(
            "Uploading to server"@,
            0,
            1,
            0,
            Some(received_bytes_text(total_bytes as nat)),
            "processing"@,
            None,
        ),
        frame_ok(f@),
{
    let mut d = String::from_str("Uploaded ");
    push_decimal(&mut d, total_bytes);
    d.append(" bytes");
    make_frame("Uploading to server", 0, 1, 0, Some(d), "processing", None)
}

/// The entry of an upload that is on disk and waits for the encoder.
pub fn queued_frame(video_name: &str) -> (f: ProgressUpdate)
    ensures
        f@ == working_frame(
            "Queued for processing"@,
            0,
            1,
            0,
            None,
            "processing"@,
            Some(video_name@),
        ),
        frame_ok(f@),
{
    make_frame(
        "Queued for processing",
        0,
        1,
        0,
        None,
        "processing",
        Some(String::from_str(video_name)),
    )
}

/// The entry written when the encoding of `total_variants` variants begins.
pub fn encoding_frame(video_name: &str, total_variants: u32) -> (f: ProgressUpdate)
    ensures
        f@ == working_frame(
            "FFmpeg processing"@,
            0,
            total_variants,
            0,
            Some("Starting encoding..."@),
            "processing"@,
            Some(video_name@),
        ),
        frame_ok(f@),
{
    make_frame(
        "FFmpeg processing",
        0,
        total_variants,
        0,
        Some(String::from_str("Starting encoding...")),
        "processing",
        Some(String::from_str(video_name)),
    )
}

/// What the details say before a variant is encoded.
pub open spec fn variant_started_text(label: Seq<char>, height: u32) -> Seq<char> {
    "Encoding variant: "@ + label + " ("@ + decimal(height as nat) + "p)"@
}

/// What the details say after a variant is encoded.
pub open spec fn variant_finished_text(label: Seq<char>) -> Seq<char> {
    "Encoded variant: "@ + label
}

/// The entry written before a variant is encoded, `completed` variants being
/// done. It carries the video name and the creation time of the entry it replaces.
pub fn variant_started_frame(
    completed: u32,
    total_variants: u32,
    label: &str,
    height: u32,
    existing: Option<&ProgressUpdate>,
) -> (f: ProgressUpdate)
    ensures
        f@ == (ProgressView {
            created_at: match existing {
                Some(p) => p.created_at,
                None => 0,
            },
            ..working_frame(
                "FFmpeg processing"@,
                completed,
                total_variants,
                percent(completed as nat, total_variants as nat) as u32,
                Some(variant_started_text(label@, height)),
                "processing"@,
                match existing {
                    Some(p) => p@.video_name,
                    None => None,
                },
            )
        }),
        frame_ok(f@),
{
    let mut d = String::from_str("Encoding variant: ");
    d.append(label);
    d.append(" (");
    push_decimal(&mut d, height as u64);
    d.append("p)");
    let name = match existing {
        Some(p) => clone_opt(&p.video_name),
        None => None,
    };
    let mut f = make_frame(
        "FFmpeg processing",
        completed,
        total_variants,
        percentage_of(completed, total_variants),
        Some(d),
        "processing",
        name,
    );
    f.created_at = match existing {
        Some(p) => p.created_at,
        None => 0,
    };
    f
}

/// The entry written after a variant is encoded, `completed` variants being done
/// with it. It carries the video name and the creation time of the entry it
/// replaces.
pub fn variant_finished_frame(
    completed: u32,
    total_variants: u32,
    label: &str,
    existing: Option<&ProgressUpdate>,
) -> (f: ProgressUpdate)
    ensures
        f@ == (ProgressView {
            created_at: match existing {
                Some(p) => p.created_at,
                None => 0,
            },
            ..working_frame(
                "FFmpeg processing"@,
                completed,
                total_variants,
                percent(completed as nat, total_variants as nat) as u32,
                Some(variant_finished_text(label@)),
                "processing"@,
                match existing {
                    Some(p) => p@.video_name,
                    None => None,
                },
            )
        }),
        frame_ok(f@),
{
    let d = concat2("Encoded variant: ", label);
    let name = match existing {
        Some(p) => clone_opt(&p.video_name),
        None => None,
    };
    let mut f = make_frame(
        "FFmpeg processing",
        completed,
        total_variants,
        percentage_of(completed, total_variants),
        Some(d),
        "processing",
        name,
    );
    f.created_at = match existing {
        Some(p) => p.created_at,
        None => 0,
    };
    f
}

/// The entry written when the upload to the object store begins.
pub fn storing_frame(video_name: &str) -> (f: ProgressUpdate)
    ensures
        f@ == working_frame(
            "Upload to R2"@,
            0,
            1,
            0,
            Some("Uploading segments to storage..."@),
            "processing"@,
            Some(video_name@),
        ),
        frame_ok(f@),
{
    make_frame(
        "Upload to R2",
        0,
        1,
        0,
        Some(String::from_str("Uploading segments to storage...")),
        "processing",
        Some(String::from_str(video_name)),
    )
}

/// What the details say while files go to the object store.
pub open spec fn stored_files_text(uploaded: u32, total_files: u32) -> Seq<char> {
    "Uploaded "@ + decimal(uploaded as nat) + "/"@ + decimal(total_files as nat) + " files"@
}

/// The entry written after the `uploaded`-th of `total_files` files has reached
/// the object store.
pub fn stored_frame(uploaded: u32, total_files: u32, video_name: Option<&str>) -> (f:
    ProgressUpdate)
    ensures
        f@ == working_frame(
            "Upload to R2"@,
            uploaded,
            total_files,
            percent(uploaded as nat, total_files as nat) as u32,
            Some(stored_files_text(uploaded, total_files)),
            "processing"@,
            match video_name {
                Some(n) => Some(n@),
                None => None,
            },
        ),
        frame_ok(f@),
{
    let mut d = String::from_str("Uploaded ");
    push_decimal(&mut d, uploaded as u64);
    d.append("/");
    push_decimal(&mut d, total_files as u64);
    d.append(" files");
    let name = match video_name {
        Some(n) => Some(String::from_str(n)),
        None => None,
    };
    make_frame(
        "Upload to R2",
        uploaded,
        total_files,
        percentage_of(uploaded, total_files),
        Some(d),
        "processing",
        name,
    )
}

/// The last entry of an upload that succeeded.
pub open spec fn completed_view(video_name: Seq<char>, result: UploadResponseView) -> ProgressView {
    ProgressView {
        result: Some(result),
        ..working_frame(
            "Completed"@,
            1,
            1,
            100,
            Some("Upload and processing complete"@),
            "completed"@,
            Some(video_name),
        )
    }
}

/// Makes the last entry of an upload that succeeded.
pub fn completed_frame(video_name: &str, result: UploadResponse) -> (f: ProgressUpdate)
    ensures
        f@ == completed_view(video_name@, result@),
        frame_ok(f@),
        is_terminal(f@.status),
        f@.percentage == 100,
{
    let mut f = make_frame(
        "Completed",
        1,
        1,
        100,
        Some(String::from_str("Upload and processing complete")),
        "completed",
        Some(String::from_str(video_name)),
    );
    f.result = Some(result);
    f
}

/// The last entry of an upload that failed with the message `error`.
pub open spec fn failed_view(video_name: Seq<char>, error: Seq<char>) -> ProgressView {
    ProgressView {
        error: Some(error),
        ..working_frame(
            "Failed"@,
            0,
            1,
            0,
            Some("Processing failed: "@ + error),
            "failed"@,
            Some(video_name),
        )
    }
}

/// Makes the last entry of an upload that failed.
pub fn failed_frame(video_name: &str, error: &str) -> (f: ProgressUpdate)
    ensures
        f@ == failed_view(video_name@, error@),
        frame_ok(f@),
        is_terminal(f@.status),
        f@.percentage == 0,
{
    let mut f = make_frame(
        "Failed",
        0,
        1,
        0,
        Some(concat2("Processing failed: ", error)),
        "failed",
        Some(String::from_str(video_name)),
    );
    f.error = Some(String::from_str(error));
    f
}

/// The entry that replaces `existing` when its upload is cancelled.
pub open spec fn cancelled_view(existing: ProgressView) -> ProgressView {
    ProgressView {
        error: Some("Cancelled by user"@),
        created_at: existing.created_at,
        ..working_frame(
            "Cancelled"@,
            0,
            existing.total_chunks,
            0,
            Some("Cancelled by user"@),
            "failed"@,
            existing.video_name,
        )
    }
}

/// Makes the entry that replaces `existing` when its upload is cancelled.
pub fn cancelled_frame(existing: &ProgressUpdate) -> (f: ProgressUpdate)
    ensures
        f@ == cancelled_view(existing@),
        frame_ok(f@),
        is_terminal(f@.status),
        f@.percentage == 0,
{
    let mut f = make_frame(
        "Cancelled",
        0,
        existing.total_chunks,
        0,
        Some(String::from_str("Cancelled by user")),
        "failed",
        clone_opt(&existing.video_name),
    );
    f.error = Some(String::from_str("Cancelled by user"));
    f.created_at = existing.created_at;
    f
}

} // verus!
