//! What the background job of an upload decides between its steps: the names of
//! its artifacts, the keys under which they are stored, the errors that end it and
//! the entries it leaves in the registry.

use crate::progress::{completed_frame, completed_view, failed_frame, failed_view};
use crate::text::{concat2, concat3, decimal, push_decimal, str_eq, substring};
use crate::probe::{AttachmentInfo, SubtitleStreamInfo};
use crate::text::{clone_opt, opt_chars};
use crate::types::{
    Attachment, ProgressUpdate, SubtitleTrack, UploadResponse, UploadResponseView, VideoVariant,
};
use crate::video::{get_variants_for_height, selected_variants, variants_view};
use vstd::prelude::*;
use vstd::string::*;

verus! {

// ---------------------------------------------------------------------------
// Errors
// ---------------------------------------------------------------------------

/// How many characters of a process's error output go into an error message.
pub const STDERR_TAIL_CHARS: usize = 2000;

/// The error that ends the job of an upload.
#[derive(Debug, Clone)]
pub enum PipelineError {
    /// The probe did not run, or its output lacked what was expected.
    ProbeFailed { reason: String },
    /// The source is shorter than the lowest rung of the ladder.
    SourceTooSmall { height: u32 },
    /// The encoder of a variant ended with an error.
    TranscodeFailed { variant_label: String, stderr_tail: String },
    /// No master playlist was found among the files to store.
    NoMasterPlaylist,
    /// The object store refused a file.
    ObjectStorePutFailed { key: String, cause: String },
    /// The metadata of the video could not be saved.
    PersistenceFailed { cause: String },
    /// Anything else.
    Internal { cause: String },
}

/// The text of an error, as the failed entry of the upload shows it.
pub open spec fn error_text(e: PipelineError) -> Seq<char> {
    match e {
        PipelineError::ProbeFailed { reason } => "ffprobe failed: "@ + reason@,
        PipelineError::SourceTooSmall { height } => "No suitable variants for video height "@
            + decimal(height as nat),
        PipelineError::TranscodeFailed { variant_label, stderr_tail } =>
            "ffmpeg failed for variant "@ + variant_label@ + ": "@ + stderr_tail@,
        PipelineError::NoMasterPlaylist => "no master playlist (index.m3u8) generated"@,
        PipelineError::ObjectStorePutFailed { key, cause } => "upload "@ + key@ + ": "@ + cause@,
        PipelineError::PersistenceFailed { cause } => "failed to save video: "@ + cause@,
        PipelineError::Internal { cause } => cause@,
    }
}

impl PipelineError {
    /// The text of the error.
    pub fn message(&self) -> (m: String)
        ensures
            m@ == error_text(*self),
    {
        match self {
            PipelineError::ProbeFailed { reason } => concat2("ffprobe failed: ", reason.as_str()),
            PipelineError::SourceTooSmall { height } => {
                let mut m = String::from_str("No suitable variants for video height ");
                push_decimal(&mut m, *height as u64);
                m
            },
            PipelineError::TranscodeFailed { variant_label, stderr_tail } => {
                let mut m = concat3("ffmpeg failed for variant ", variant_label.as_str(), ": ");
                m.append(stderr_tail.as_str());
                m
            },
            PipelineError::NoMasterPlaylist => String::from_str(
                "no master playlist (index.m3u8) generated",
            ),
            PipelineError::ObjectStorePutFailed { key, cause } => {
                let mut m = concat3("upload ", key.as_str(), ": ");
                m.append(cause.as_str());
                m
            },
            PipelineError::PersistenceFailed { cause } => concat2(
                "failed to save video: ",
                cause.as_str(),
            ),
            PipelineError::Internal { cause } => cause.clone(),
        }
    }
}

/// The last `limit` characters of `s`, or all of it where it is shorter.
pub open spec fn tail(s: Seq<char>, limit: nat) -> Seq<char> {
    if s.len() <= limit {
        s
    } else {
        s.subrange(s.len() - limit, s.len() as int)
    }
}

/// The end of the error output of a process, as far as it goes into a message.
pub fn stderr_tail(stderr: &str) -> (t: String)
    ensures
        t@ == tail(stderr@, STDERR_TAIL_CHARS as nat),
{
    let n = stderr.unicode_len();
    if n <= STDERR_TAIL_CHARS {
        assert(stderr@.subrange(0, n as int) =~= stderr@);
        substring(stderr, 0, n)
    } else {
        substring(stderr, n - STDERR_TAIL_CHARS, n)
    }
}

/// The error of a variant whose encoder ended with an error and the error output
/// `stderr`.
pub fn transcode_failed(variant_label: &str, stderr: &str) -> (e: PipelineError)
    ensures
        e matches PipelineError::TranscodeFailed { variant_label: l, stderr_tail: t } && l@
            == variant_label@ && t@ == tail(stderr@, STDERR_TAIL_CHARS as nat),
{
    PipelineError::TranscodeFailed {
        variant_label: String::from_str(variant_label),
        stderr_tail: stderr_tail(stderr),
    }
}

// ---------------------------------------------------------------------------
// The plan of a transcode
// ---------------------------------------------------------------------------

/// Chooses the variants of a source of the given height.
///
/// The job fails with `SourceTooSmall` exactly when no rung of the ladder fits.
pub fn plan_variants(source_height: u32) -> (r: Result<Vec<VideoVariant>, PipelineError>)
    ensures
        match r {
            Ok(variants) => source_height >= 480 && variants@.len() > 0 && variants_view(variants@)
                == selected_variants(source_height),
            Err(e) => {
                &&& source_height < 480
                &&& e matches PipelineError::SourceTooSmall { height }
                &&& height == source_height
            },
        },
{
    let variants = get_variants_for_height(source_height);
    if variants.len() == 0 {
        Err(PipelineError::SourceTooSmall { height: source_height })
    } else {
        Ok(variants)
    }
}

/// The labels of the variants, in their order.
pub fn variant_labels(variants: &Vec<VideoVariant>) -> (labels: Vec<String>)
    ensures
        labels@.len() == variants@.len(),
        forall|i: int| 0 <= i < labels@.len() ==> (#[trigger] labels@[i])@ == variants@[i]@.label,
{
    let mut labels: Vec<String> = Vec::new();
    let mut i: usize = 0;
    while i < variants.len()
        invariant
            i <= variants@.len(),
            labels@.len() == i,
            forall|k: int| 0 <= k < i ==> (#[trigger] labels@[k])@ == variants@[k]@.label,
        decreases variants@.len() - i,
    {
        labels.push(variants[i].label.clone());
        i += 1;
    }
    labels
}

// ---------------------------------------------------------------------------
// Names and keys
// ---------------------------------------------------------------------------

/// The format in which a subtitle stream is extracted, by the codec of the
/// source: SubRip stays SubRip, everything else becomes ASS.
pub open spec fn subtitle_format(codec: Seq<char>) -> Seq<char> {
    if codec == "subrip"@ || codec == "srt"@ {
        "srt"@
    } else {
        "ass"@
    }
}

/// Chooses the format in which a subtitle stream is extracted.
pub fn subtitle_format_of(codec: &str) -> (format: &'static str)
    ensures
        format@ == subtitle_format(codec@),
{
    if str_eq(codec, "subrip") || str_eq(codec, "srt") {
        "srt"
    } else {
        "ass"
    }
}

/// The name of the file of subtitle track `track`: `track_{n}.{format}`.
pub open spec fn subtitle_file_name(track: nat, codec: Seq<char>) -> Seq<char> {
    "track_"@ + decimal(track) + "."@ + subtitle_format(codec)
}

/// Makes the name of the file of a subtitle track.
pub fn subtitle_file_name_of(track: u32, codec: &str) -> (name: String)
    ensures
        name@ == subtitle_file_name(track as nat, codec@),
{
    let mut name = String::from_str("track_");
    push_decimal(&mut name, track as u64);
    name.append(".");
    name.append(subtitle_format_of(codec));
    name
}

/// The prefix of the keys of a video's objects.
pub open spec fn key_prefix(video_id: Seq<char>) -> Seq<char> {
    video_id + "/"@
}

/// The key of a video's thumbnail.
pub open spec fn thumbnail_key(video_id: Seq<char>) -> Seq<char> {
    video_id + "/thumbnail.jpg"@
}

/// The key of a subtitle track of a video.
pub open spec fn subtitle_key(video_id: Seq<char>, track: nat, codec: Seq<char>) -> Seq<char> {
    video_id + "/subtitles/"@ + subtitle_file_name(track, codec)
}

/// The key of a font attached to a video.
pub open spec fn font_key(video_id: Seq<char>, file_name: Seq<char>) -> Seq<char> {
    video_id + "/fonts/"@ + file_name
}

/// The address of a video's player page.
pub open spec fn player_url(video_id: Seq<char>) -> Seq<char> {
    "/player/"@ + video_id
}

/// Makes the prefix of the keys of a video's objects.
pub fn key_prefix_of(video_id: &str) -> (k: String)
    ensures
        k@ == key_prefix(video_id@),
{
    concat2(video_id, "/")
}

/// Makes the key of a video's thumbnail.
pub fn thumbnail_key_of(video_id: &str) -> (k: String)
    ensures
        k@ == thumbnail_key(video_id@),
{
    concat2(video_id, "/thumbnail.jpg")
}

/// Makes the key of a subtitle track of a video.
pub fn subtitle_key_of(video_id: &str, track: u32, codec: &str) -> (k: String)
    ensures
        k@ == subtitle_key(video_id@, track as nat, codec@),
{
    let name = subtitle_file_name_of(track, codec);
    concat3(video_id, "/subtitles/", name.as_str())
}

/// Makes the key of a font attached to a video.
pub fn font_key_of(video_id: &str, file_name: &str) -> (k: String)
    ensures
        k@ == font_key(video_id@, file_name@),
{
    concat3(video_id, "/fonts/", file_name)
}

/// Makes the address of a video's player page.
pub fn player_url_of(video_id: &str) -> (u: String)
    ensures
        u@ == player_url(video_id@),
{
    concat2("/player/", video_id)
}

/// The subtitle tracks of a video as they are saved: each stream of the source
/// becomes the track of its position among the subtitle streams, stored under the
/// key of that track.
pub fn subtitle_tracks(video_id: &str, streams: &Vec<SubtitleStreamInfo>) -> (tracks: Vec<
    SubtitleTrack,
>)
    ensures
        tracks@.len() == if streams@.len() <= u32::MAX {
            streams@.len()
        } else {
            u32::MAX as nat
        },
        forall|i: int|
            0 <= i < tracks@.len() ==> {
                let t = #[trigger] tracks@[i];
                let s = streams@[i]@;
                &&& t.track_index == i
                &&& t.codec@ == s.codec_name
                &&& opt_chars(t.language) == s.language
                &&& opt_chars(t.title) == s.title
                &&& t.is_default == s.is_default
                &&& t.is_forced == s.is_forced
                &&& t.storage_key@ == subtitle_key(video_id@, i as nat, s.codec_name)
            },
{
    let mut tracks: Vec<SubtitleTrack> = Vec::new();
    let mut i: u32 = 0;
    while (i as usize) < streams.len() && i < u32::MAX
        invariant
            i <= streams@.len(),
            tracks@.len() == i,
            forall|k: int|
                0 <= k < tracks@.len() ==> {
                    let t = #[trigger] tracks@[k];
                    let s = streams@[k]@;
                    &&& t.track_index == k
                    &&& t.codec@ == s.codec_name
                    &&& opt_chars(t.language) == s.language
                    &&& opt_chars(t.title) == s.title
                    &&& t.is_default == s.is_default
                    &&& t.is_forced == s.is_forced
                    &&& t.storage_key@ == subtitle_key(video_id@, k as nat, s.codec_name)
                },
        decreases u32::MAX - i,
    {
        let s = &streams[i as usize];
        tracks.push(
            SubtitleTrack {
                track_index: i,
                codec: s.codec_name.clone(),
                language: clone_opt(&s.language),
                title: clone_opt(&s.title),
                is_default: s.is_default,
                is_forced: s.is_forced,
                storage_key: subtitle_key_of(video_id, i, s.codec_name.as_str()),
            },
        );
        i += 1;
    }
    tracks
}

/// The attachments of a video as they are saved: each under the key of its font.
pub fn stored_attachments(video_id: &str, found: &Vec<AttachmentInfo>) -> (attachments: Vec<
    Attachment,
>)
    ensures
        attachments@.len() == found@.len(),
        forall|i: int|
            0 <= i < attachments@.len() ==> {
                let a = #[trigger] attachments@[i];
                &&& a.filename@ == found@[i].filename@
                &&& a.mimetype@ == found@[i].mimetype@
                &&& a.storage_key@ == font_key(video_id@, found@[i].filename@)
            },
{
    let mut attachments: Vec<Attachment> = Vec::new();
    let mut i: usize = 0;
    while i < found.len()
        invariant
            i <= found@.len(),
            attachments@.len() == i,
            forall|k: int|
                0 <= k < attachments@.len() ==> {
                    let a = #[trigger] attachments@[k];
                    &&& a.filename@ == found@[k].filename@
                    &&& a.mimetype@ == found@[k].mimetype@
                    &&& a.storage_key@ == font_key(video_id@, found@[k].filename@)
                },
        decreases found@.len() - i,
    {
        let f = &found[i];
        attachments.push(
            Attachment {
                filename: f.filename.clone(),
                mimetype: f.mimetype.clone(),
                storage_key: font_key_of(video_id, f.filename.as_str()),
            },
        );
        i += 1;
    }
    attachments
}

// ---------------------------------------------------------------------------
// The end of the job
// ---------------------------------------------------------------------------

/// The last entry of an upload, given how its job ended: the entry of a
/// completed upload with the address of its player, or that of a failed upload
/// with the text of the error.
pub fn final_frame(
    upload_id: &str,
    video_name: &str,
    outcome: Result<&str, &PipelineError>,
) -> (f: ProgressUpdate)
    ensures
        f@ == match outcome {
            Ok(video_id) => completed_view(
                video_name@,
                UploadResponseView { player_url: player_url(video_id@), upload_id: upload_id@ },
            ),
            Err(e) => failed_view(video_name@, error_text(*e)),
        },
        crate::progress::is_terminal(f@.status),
        f@.percentage == 0 || f@.percentage == 100,
{
    match outcome {
        Ok(video_id) => completed_frame(
            video_name,
            UploadResponse {
                player_url: player_url_of(video_id),
                upload_id: String::from_str(upload_id),
            },
        ),
        Err(e) => {
            let text = e.message();
            failed_frame(video_name, text.as_str())
        },
    }
}

// ---------------------------------------------------------------------------
// The working directory of a job
// ---------------------------------------------------------------------------

/// The directory in which the output of a video is gathered before it is stored.
pub open spec fn work_dir(scratch_root: Seq<char>, video_id: Seq<char>) -> Seq<char> {
    scratch_root + "/hls-"@ + video_id
}

/// The directory of the extracted subtitle tracks, under the working directory.
pub open spec fn subtitles_dir(out_dir: Seq<char>) -> Seq<char> {
    out_dir + "/subtitles"@
}

/// The directory of the dumped fonts, under the working directory.
pub open spec fn fonts_dir(out_dir: Seq<char>) -> Seq<char> {
    out_dir + "/fonts"@
}

/// Names the working directory of a video.
pub fn work_dir_of(scratch_root: &str, video_id: &str) -> (dir: String)
    ensures
        dir@ == work_dir(scratch_root@, video_id@),
{
    concat3(scratch_root, "/hls-", video_id)
}

/// Names the directory of the extracted subtitle tracks.
pub fn subtitles_dir_of(out_dir: &str) -> (dir: String)
    ensures
        dir@ == subtitles_dir(out_dir@),
{
    concat2(out_dir, "/subtitles")
}

/// Names the directory of the dumped fonts.
pub fn fonts_dir_of(out_dir: &str) -> (dir: String)
    ensures
        dir@ == fonts_dir(out_dir@),
{
    concat2(out_dir, "/fonts")
}

} // verus!
