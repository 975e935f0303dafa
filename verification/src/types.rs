//! The data that the library's functions exchange, and the mathematical view of
//! each: strings as sequences of characters, vectors as sequences.

use crate::text::opt_chars;
use vstd::prelude::*;

verus! {

/// Where a finished upload can be played.
#[derive(Clone, Debug)]
pub struct UploadResponse {
    pub player_url: String,
    pub upload_id: String,
}

/// An [`UploadResponse`], its strings as sequences of characters.
pub struct UploadResponseView {
    pub player_url: Seq<char>,
    pub upload_id: Seq<char>,
}

impl View for UploadResponse {
    type V = UploadResponseView;

    open spec fn view(&self) -> UploadResponseView {
        UploadResponseView { player_url: self.player_url@, upload_id: self.upload_id@ }
    }
}

/// The observable state of one upload.
#[derive(Clone, Debug)]
pub struct ProgressUpdate {
    pub stage: String,
    pub current_chunk: u32,
    pub total_chunks: u32,
    pub percentage: u32,
    pub details: Option<String>,
    /// One of `"initializing"`, `"processing"`, `"completed"`, `"failed"`.
    pub status: String,
    pub result: Option<UploadResponse>,
    pub error: Option<String>,
    pub video_name: Option<String>,
    /// Milliseconds since the Unix epoch at which the upload was first seen.
    pub created_at: u64,
}

/// A [`ProgressUpdate`], its strings as sequences of characters.
pub struct ProgressView {
    pub stage: Seq<char>,
    pub current_chunk: u32,
    pub total_chunks: u32,
    pub percentage: u32,
    pub details: Option<Seq<char>>,
    pub status: Seq<char>,
    pub result: Option<UploadResponseView>,
    pub error: Option<Seq<char>>,
    pub video_name: Option<Seq<char>>,
    pub created_at: u64,
}

impl View for ProgressUpdate {
    type V = ProgressView;

    open spec fn view(&self) -> ProgressView {
        ProgressView {
            stage: self.stage@,
            current_chunk: self.current_chunk,
            total_chunks: self.total_chunks,
            percentage: self.percentage,
            details: opt_chars(self.details),
            status: self.status@,
            result: match self.result {
                Some(r) => Some(r@),
                None => None,
            },
            error: opt_chars(self.error),
            video_name: opt_chars(self.video_name),
            created_at: self.created_at,
        }
    }
}

/// One rung of the encoding ladder.
#[derive(Clone, Debug)]
pub struct VideoVariant {
    pub label: String,
    pub height: u32,
    pub bitrate: String,
}

/// A [`VideoVariant`], its strings as sequences of characters.
pub struct VariantView {
    pub label: Seq<char>,
    pub height: u32,
    pub bitrate: Seq<char>,
}

impl View for VideoVariant {
    type V = VariantView;

    open spec fn view(&self) -> VariantView {
        VariantView { label: self.label@, height: self.height, bitrate: self.bitrate@ }
    }
}

/// The answer to an upload that was accepted for processing.
#[derive(Clone, Debug)]
pub struct UploadAccepted {
    pub upload_id: String,
    pub message: String,
}

/// One frame of the progress stream: a [`ProgressUpdate`] without what only the
/// queue needs.
#[derive(Clone, Debug)]
pub struct ProgressResponse {
    pub stage: String,
    pub current_chunk: u32,
    pub total_chunks: u32,
    pub percentage: u32,
    pub details: Option<String>,
    pub status: String,
    pub result: Option<UploadResponse>,
    pub error: Option<String>,
}

/// A [`ProgressResponse`], its strings as sequences of characters.
pub struct ProgressResponseView {
    pub stage: Seq<char>,
    pub current_chunk: u32,
    pub total_chunks: u32,
    pub percentage: u32,
    pub details: Option<Seq<char>>,
    pub status: Seq<char>,
    pub result: Option<UploadResponseView>,
    pub error: Option<Seq<char>>,
}

impl View for ProgressResponse {
    type V = ProgressResponseView;

    open spec fn view(&self) -> ProgressResponseView {
        ProgressResponseView {
            stage: self.stage@,
            current_chunk: self.current_chunk,
            total_chunks: self.total_chunks,
            percentage: self.percentage,
            details: opt_chars(self.details),
            status: self.status@,
            result: match self.result {
                Some(r) => Some(r@),
                None => None,
            },
            error: opt_chars(self.error),
        }
    }
}

/// The filters and the page of a video listing, as the client sent them.
#[derive(Clone, Debug)]
pub struct VideoQuery {
    pub page: Option<u32>,
    pub page_size: Option<u32>,
    pub name: Option<String>,
    pub tag: Option<String>,
}

/// One video of a listing.
#[derive(Clone, Debug)]
pub struct VideoDto {
    pub id: String,
    pub name: String,
    pub tags: Vec<String>,
    pub available_resolutions: Vec<String>,
    pub duration: u32,
    pub thumbnail_url: String,
    pub player_url: String,
    pub view_count: i64,
    pub created_at: String,
}

/// One page of a video listing.
#[derive(Clone, Debug)]
pub struct VideoListResponse {
    pub items: Vec<VideoDto>,
    pub page: u32,
    pub page_size: u32,
    pub total: u64,
    pub has_next: bool,
    pub has_prev: bool,
}

/// One upload as the queue listing shows it.
#[derive(Clone, Debug)]
pub struct QueueItem {
    pub upload_id: String,
    pub stage: String,
    pub current_chunk: u32,
    pub total_chunks: u32,
    pub percentage: u32,
    pub details: Option<String>,
    pub status: String,
    pub video_name: Option<String>,
    pub created_at: u64,
}

/// A [`QueueItem`], its strings as sequences of characters.
pub struct QueueItemView {
    pub upload_id: Seq<char>,
    pub stage: Seq<char>,
    pub current_chunk: u32,
    pub total_chunks: u32,
    pub percentage: u32,
    pub details: Option<Seq<char>>,
    pub status: Seq<char>,
    pub video_name: Option<Seq<char>>,
    pub created_at: u64,
}

impl View for QueueItem {
    type V = QueueItemView;

    open spec fn view(&self) -> QueueItemView {
        QueueItemView {
            upload_id: self.upload_id@,
            stage: self.stage@,
            current_chunk: self.current_chunk,
            total_chunks: self.total_chunks,
            percentage: self.percentage,
            details: opt_chars(self.details),
            status: self.status@,
            video_name: opt_chars(self.video_name),
            created_at: self.created_at,
        }
    }
}

/// The queue, oldest upload first, with the number of uploads in each state.
#[derive(Clone, Debug)]
pub struct QueueListResponse {
    pub items: Vec<QueueItem>,
    pub active_count: u32,
    pub completed_count: u32,
    pub failed_count: u32,
}

/// The record of an upload that arrives in numbered chunks.
#[derive(Clone, Debug)]
pub struct ChunkedUpload {
    pub file_name: String,
    pub total_chunks: u32,
    /// `received_chunks[i]` tells whether chunk `i` is on disk.
    pub received_chunks: Vec<bool>,
    /// The scratch directory that holds the chunks.
    pub temp_dir: String,
}

/// A [`ChunkedUpload`], its strings as sequences of characters and its bits as a
/// sequence.
pub struct ChunkedUploadView {
    pub file_name: Seq<char>,
    pub total_chunks: u32,
    pub received_chunks: Seq<bool>,
    pub temp_dir: Seq<char>,
}

impl View for ChunkedUpload {
    type V = ChunkedUploadView;

    open spec fn view(&self) -> ChunkedUploadView {
        ChunkedUploadView {
            file_name: self.file_name@,
            total_chunks: self.total_chunks,
            received_chunks: self.received_chunks@,
            temp_dir: self.temp_dir@,
        }
    }
}

/// The answer to one chunk.
#[derive(Clone, Debug)]
pub struct ChunkUploadResponse {
    pub upload_id: String,
    pub chunk_index: u32,
    pub received: bool,
}

/// What the client sends to close a chunked upload.
#[derive(Clone, Debug)]
pub struct FinalizeUploadRequest {
    pub name: String,
    pub tags: Option<String>,
}

/// The answer to a cancellation.
#[derive(Clone, Debug)]
pub struct CancelQueueResponse {
    pub cancelled: bool,
    pub message: String,
}

/// A video as the analytics page lists it.
#[derive(Clone, Debug)]
pub struct AnalyticsVideoDto {
    pub id: String,
    pub name: String,
    pub view_count: i64,
    pub created_at: String,
    pub thumbnail_url: String,
}

/// The new name and tags of a video.
#[derive(Clone, Debug)]
pub struct UpdateVideoRequest {
    pub name: String,
    pub tags: Vec<String>,
}

/// The videos to delete.
#[derive(Clone, Debug)]
pub struct DeleteVideosRequest {
    pub ids: Vec<String>,
}

/// How many videos were deleted.
#[derive(Clone, Debug)]
pub struct DeleteVideosResponse {
    pub deleted: u64,
    pub message: String,
}

/// A row of the video table, as far as the analytics page needs it.
#[derive(Clone, Debug)]
pub struct VideoSummary {
    pub id: String,
    pub name: String,
    pub view_count: i64,
    pub created_at: String,
    pub thumbnail_key: String,
}

/// A subtitle track of a video.
#[derive(Debug, Clone)]
pub struct SubtitleTrack {
    /// The position of the track among the subtitle tracks of its video, from 0.
    pub track_index: u32,
    pub codec: String,
    pub language: Option<String>,
    pub title: Option<String>,
    pub is_default: bool,
    pub is_forced: bool,
    pub storage_key: String,
}

/// A file attached to a video.
#[derive(Debug, Clone)]
pub struct Attachment {
    pub filename: String,
    pub mimetype: String,
    pub storage_key: String,
}

} // verus!
