//! The media prober: the argument vectors of its FFprobe and FFmpeg processes,
//! and the reading of what they report into typed descriptions.
//!
//! The caller runs the processes. Here the rows of their reports are read: what a
//! field means, and what stands in for a missing one.

use crate::pipeline::{subtitle_format, subtitle_format_of, PipelineError};
use crate::text::{
    clone_opt, decimal, ends_with, lowercase, opt_chars, push_decimal, push_str, push_string,
    str_ends_with, strings_view, to_lowercase,
};
use vstd::prelude::*;
use vstd::string::*;

verus! {

// ---------------------------------------------------------------------------
// Argument vectors
// ---------------------------------------------------------------------------

/// The arguments of the FFprobe process that reports the height of the first
/// video stream and the duration of the file.
pub open spec fn metadata_probe_args(input: Seq<char>) -> Seq<Seq<char>> {
    seq![
        "-v"@,
        "error"@,
        "-select_streams"@,
        "v:0"@,
        "-show_entries"@,
        "stream=height:format=duration"@,
        "-of"@,
        "json"@,
        input,
    ]
}

/// The arguments of the FFprobe process that reports the subtitle streams.
pub open spec fn subtitle_probe_args(input: Seq<char>) -> Seq<Seq<char>> {
    seq![
        "-v"@,
        "error"@,
        "-select_streams"@,
        "s"@,
        "-show_entries"@,
        "stream=index,codec_name:stream_tags=language,title:stream_disposition=default,forced"@,
        "-of"@,
        "json"@,
        input,
    ]
}

/// The arguments of the FFprobe process that reports the attachments.
pub open spec fn attachment_probe_args(input: Seq<char>) -> Seq<Seq<char>> {
    seq![
        "-v"@,
        "error"@,
        "-select_streams"@,
        "t"@,
        "-show_entries"@,
        "stream=index:stream_tags=filename,mimetype"@,
        "-of"@,
        "json"@,
        input,
    ]
}

/// The arguments of the FFprobe process that reports the chapters.
pub open spec fn chapter_probe_args(input: Seq<char>) -> Seq<Seq<char>> {
    seq!["-v"@, "error"@, "-show_chapters"@, "-of"@, "json"@, input]
}

/// The arguments of the FFmpeg process that writes subtitle stream `track` of
/// `input` to `output`, in the format that the stream's codec calls for.
pub open spec fn subtitle_extract_args(
    input: Seq<char>,
    track: u32,
    output: Seq<char>,
    codec: Seq<char>,
) -> Seq<Seq<char>> {
    seq![
        "-v"@,
        "error"@,
        "-y"@,
        "-i"@,
        input,
        "-map"@,
        "0:s:"@ + decimal(track as nat),
        "-c:s"@,
        subtitle_format(codec),
        output,
    ]
}

/// The arguments of the FFmpeg process that dumps every attachment of `input`
/// into its working directory.
pub open spec fn attachment_dump_args(input: Seq<char>) -> Seq<Seq<char>> {
    seq!["-v"@, "error"@, "-y"@, "-dump_attachment:t"@, ""@, "-i"@, input]
}

fn probe_head(args: &mut Vec<String>)
    requires
        old(args)@.len() == 0,
    ensures
        strings_view(final(args)@) == seq!["-v"@, "error"@],
{
    assert(strings_view(args@) =~= Seq::<Seq<char>>::empty());
    push_str(args, "-v");
    push_str(args, "error");
    assert(strings_view(args@) =~= seq!["-v"@, "error"@]);
}

fn selecting_probe(select: &str, entries: &str, input: &str) -> (args: Vec<String>)
    ensures
        strings_view(args@) == seq![
            "-v"@,
            "error"@,
            "-select_streams"@,
            select@,
            "-show_entries"@,
            entries@,
            "-of"@,
            "json"@,
            input@,
        ],
{
    let mut args: Vec<String> = Vec::new();
    probe_head(&mut args);
    push_str(&mut args, "-select_streams");
    push_str(&mut args, select);
    push_str(&mut args, "-show_entries");
    push_str(&mut args, entries);
    push_str(&mut args, "-of");
    push_str(&mut args, "json");
    push_str(&mut args, input);
    assert(strings_view(args@) =~= seq![
        "-v"@,
        "error"@,
        "-select_streams"@,
        select@,
        "-show_entries"@,
        entries@,
        "-of"@,
        "json"@,
        input@,
    ]);
    args
}

/// Builds the arguments of the metadata probe.
pub fn metadata_probe_command(input: &str) -> (args: Vec<String>)
    ensures
        strings_view(args@) == metadata_probe_args(input@),
{
    selecting_probe("v:0", "stream=height:format=duration", input)
}

/// Builds the arguments of the subtitle probe.
pub fn subtitle_probe_command(input: &str) -> (args: Vec<String>)
    ensures
        strings_view(args@) == subtitle_probe_args(input@),
{
    selecting_probe(
        "s",
        "stream=index,codec_name:stream_tags=language,title:stream_disposition=default,forced",
        input,
    )
}

/// Builds the arguments of the attachment probe.
pub fn attachment_probe_command(input: &str) -> (args: Vec<String>)
    ensures
        strings_view(args@) == attachment_probe_args(input@),
{
    selecting_probe("t", "stream=index:stream_tags=filename,mimetype", input)
}

/// Builds the arguments of the chapter probe.
pub fn chapter_probe_command(input: &str) -> (args: Vec<String>)
    ensures
        strings_view(args@) == chapter_probe_args(input@),
{
    let mut args: Vec<String> = Vec::new();
    probe_head(&mut args);
    push_str(&mut args, "-show_chapters");
    push_str(&mut args, "-of");
    push_str(&mut args, "json");
    push_str(&mut args, input);
    assert(strings_view(args@) =~= chapter_probe_args(input@));
    args
}

/// Builds the arguments of the process that extracts a subtitle stream.
pub fn subtitle_extract_command(input: &str, track: u32, output: &str, codec: &str) -> (args: Vec<
    String,
>)
    ensures
        strings_view(args@) == subtitle_extract_args(input@, track, output@, codec@),
{
    let mut args: Vec<String> = Vec::new();
    probe_head(&mut args);
    push_str(&mut args, "-y");
    push_str(&mut args, "-i");
    push_str(&mut args, input);
    push_str(&mut args, "-map");
    let mut map = String::from_str("0:s:");
    push_decimal(&mut map, track as u64);
    push_string(&mut args, map);
    push_str(&mut args, "-c:s");
    push_str(&mut args, subtitle_format_of(codec));
    push_str(&mut args, output);
    assert(strings_view(args@) =~= subtitle_extract_args(input@, track, output@, codec@));
    args
}

/// Builds the arguments of the process that dumps the attachments.
pub fn attachment_dump_command(input: &str) -> (args: Vec<String>)
    ensures
        strings_view(args@) == attachment_dump_args(input@),
{
    let mut args: Vec<String> = Vec::new();
    probe_head(&mut args);
    push_str(&mut args, "-y");
    push_str(&mut args, "-dump_attachment:t");
    push_str(&mut args, "");
    push_str(&mut args, "-i");
    push_str(&mut args, input);
    assert(strings_view(args@) =~= attachment_dump_args(input@));
    args
}

// ---------------------------------------------------------------------------
// Metadata
// ---------------------------------------------------------------------------

/// Reads the report of the metadata probe: the height of the source in pixels and
/// its duration in whole seconds.
///
/// The probe has failed where the process ended with an error, where a field is
/// absent, or where the height does not fit in 32 bits.
pub fn read_metadata(exited_ok: bool, height: Option<u64>, duration_secs: Option<u32>) -> (r:
    Result<(u32, u32), PipelineError>)
    ensures
        match r {
            Ok((h, d)) => exited_ok && height == Some(h as u64) && duration_secs == Some(d),
            Err(e) => e is ProbeFailed && !(exited_ok && height is Some && height->0 <= u32::MAX
                && duration_secs is Some),
        },
{
    if !exited_ok {
        return Err(PipelineError::ProbeFailed { reason: String::from_str("ffprobe failed") });
    }
    let h = match height {
        Some(h) => h,
        None => {
            return Err(PipelineError::ProbeFailed { reason: String::from_str("no height found") });
        },
    };
    if h > u32::MAX as u64 {
        return Err(PipelineError::ProbeFailed { reason: String::from_str("no height found") });
    }
    match duration_secs {
        Some(d) => Ok((h as u32, d)),
        None => Err(PipelineError::ProbeFailed { reason: String::from_str("no duration found") }),
    }
}

// ---------------------------------------------------------------------------
// Subtitle streams
// ---------------------------------------------------------------------------

/// A subtitle stream as the probe reports it: every field may be absent.
#[derive(Debug, Clone)]
pub struct RawSubtitleStream {
    pub index: Option<i64>,
    pub codec_name: Option<String>,
    pub language: Option<String>,
    pub title: Option<String>,
    pub default_flag: Option<i64>,
    pub forced_flag: Option<i64>,
}

/// A subtitle stream of the source.
#[derive(Debug, Clone)]
pub struct SubtitleStreamInfo {
    /// The index of the stream among all streams of the source.
    pub stream_index: i64,
    pub codec_name: String,
    pub language: Option<String>,
    pub title: Option<String>,
    pub is_default: bool,
    pub is_forced: bool,
}

/// A subtitle stream, its strings as sequences of characters.
pub struct SubtitleStreamView {
    pub stream_index: i64,
    pub codec_name: Seq<char>,
    pub language: Option<Seq<char>>,
    pub title: Option<Seq<char>>,
    pub is_default: bool,
    pub is_forced: bool,
}

impl View for SubtitleStreamInfo {
    type V = SubtitleStreamView;

    open spec fn view(&self) -> SubtitleStreamView {
        SubtitleStreamView {
            stream_index: self.stream_index,
            codec_name: self.codec_name@,
            language: opt_chars(self.language),
            title: opt_chars(self.title),
            is_default: self.is_default,
            is_forced: self.is_forced,
        }
    }
}

/// The stream that a report describes, standing at `position` among the subtitle
/// streams: a missing index is the position, a missing codec is `unknown`, and a
/// flag is set where it is reported as 1.
pub open spec fn subtitle_stream_of(position: nat, raw: RawSubtitleStream) -> SubtitleStreamView {
    SubtitleStreamView {
        stream_index: match raw.index {
            Some(i) => i,
            None => if position <= i64::MAX {
                position as i64
            } else {
                i64::MAX
            },
        },
        codec_name: match raw.codec_name {
            Some(c) => c@,
            None => "unknown"@,
        },
        language: opt_chars(raw.language),
        title: opt_chars(raw.title),
        is_default: raw.default_flag == Some(1i64),
        is_forced: raw.forced_flag == Some(1i64),
    }
}

/// Reads the report of the subtitle probe, stream by stream and in its order.
pub fn read_subtitle_streams(raw: &Vec<RawSubtitleStream>) -> (streams: Vec<SubtitleStreamInfo>)
    ensures
        streams@.len() == raw@.len(),
        forall|i: int|
            0 <= i < streams@.len() ==> (#[trigger] streams@[i])@ == subtitle_stream_of(
                i as nat,
                raw@[i],
            ),
{
    let mut streams: Vec<SubtitleStreamInfo> = Vec::new();
    let mut i: usize = 0;
    while i < raw.len()
        invariant
            i <= raw@.len(),
            streams@.len() == i,
            forall|k: int|
                0 <= k < i ==> (#[trigger] streams@[k])@ == subtitle_stream_of(k as nat, raw@[k]),
        decreases raw@.len() - i,
    {
        let r = &raw[i];
        let info = SubtitleStreamInfo {
            stream_index: match r.index {
                Some(x) => x,
                None => if i as u64 <= i64::MAX as u64 {
                    i as i64
                } else {
                    i64::MAX
                },
            },
            codec_name: match &r.codec_name {
                Some(c) => c.clone(),
                None => String::from_str("unknown"),
            },
            language: clone_opt(&r.language),
            title: clone_opt(&r.title),
            is_default: match r.default_flag {
                Some(f) => f == 1,
                None => false,
            },
            is_forced: match r.forced_flag {
                Some(f) => f == 1,
                None => false,
            },
        };
        streams.push(info);
        i += 1;
    }
    streams
}

// ---------------------------------------------------------------------------
// Attachments
// ---------------------------------------------------------------------------

/// An attachment as the probe reports it.
#[derive(Debug, Clone)]
pub struct RawAttachment {
    pub filename: Option<String>,
    pub mimetype: Option<String>,
}

/// A file attached to the source, such as a font.
#[derive(Debug, Clone)]
pub struct AttachmentInfo {
    pub filename: String,
    pub mimetype: String,
}

/// The media type of a font by the extension of its file name: `.ttf` in either
/// case, `.otf`, `.woff` and `.woff2` as written; anything else is a stream of
/// bytes.
pub open spec fn guessed_mimetype(filename: Seq<char>) -> Seq<char> {
    if ends_with(lowercase(filename), ".ttf"@) {
        "font/ttf"@
    } else if ends_with(filename, ".otf"@) {
        "font/otf"@
    } else if ends_with(filename, ".woff"@) {
        "font/woff"@
    } else if ends_with(filename, ".woff2"@) {
        "font/woff2"@
    } else {
        "application/octet-stream"@
    }
}

/// The media type of a file whose name in lower case is `lowered`.
pub fn mimetype_by_extension(filename: &str, lowered: &str) -> (m: &'static str)
    ensures
        m@ == if ends_with(lowered@, ".ttf"@) {
            "font/ttf"@
        } else if ends_with(filename@, ".otf"@) {
            "font/otf"@
        } else if ends_with(filename@, ".woff"@) {
            "font/woff"@
        } else if ends_with(filename@, ".woff2"@) {
            "font/woff2"@
        } else {
            "application/octet-stream"@
        },
{
    if str_ends_with(lowered, ".ttf") {
        "font/ttf"
    } else if str_ends_with(filename, ".otf") {
        "font/otf"
    } else if str_ends_with(filename, ".woff") {
        "font/woff"
    } else if str_ends_with(filename, ".woff2") {
        "font/woff2"
    } else {
        "application/octet-stream"
    }
}

/// Guesses the media type of an attachment from its file name.
pub fn guess_mimetype(filename: &str) -> (m: &'static str)
    ensures
        m@ == guessed_mimetype(filename@),
{
    let lowered = to_lowercase(filename);
    mimetype_by_extension(filename, lowered.as_str())
}

/// The attachment that a report describes, if it names a file: with the media
/// type reported, or the one guessed from the file name.
pub open spec fn attachment_of(raw: RawAttachment) -> Option<(Seq<char>, Seq<char>)> {
    match raw.filename {
        Some(name) => Some(
            (
                name@,
                match raw.mimetype {
                    Some(m) => m@,
                    None => guessed_mimetype(name@),
                },
            ),
        ),
        None => None,
    }
}

/// The attachments that the reports describe, in their order, those without a
/// file name left out.
pub open spec fn attachments_of(raw: Seq<RawAttachment>) -> Seq<(Seq<char>, Seq<char>)> {
    raw.filter_map(|r: RawAttachment| attachment_of(r))
}

/// The names and media types of a sequence of attachments.
pub open spec fn attachments_view(a: Seq<AttachmentInfo>) -> Seq<(Seq<char>, Seq<char>)> {
    a.map_values(|x: AttachmentInfo| (x.filename@, x.mimetype@))
}

/// Reads the report of the attachment probe. A probe that ended with an error
/// reports no attachments.
pub fn read_attachments(exited_ok: bool, raw: &Vec<RawAttachment>) -> (attachments: Vec<
    AttachmentInfo,
>)
    ensures
        attachments_view(attachments@) == if exited_ok {
            attachments_of(raw@)
        } else {
            Seq::empty()
        },
{
    let mut attachments: Vec<AttachmentInfo> = Vec::new();
    if !exited_ok {
        assert(attachments_view(attachments@) =~= Seq::empty());
        return attachments;
    }
    let ghost f = |r: RawAttachment| attachment_of(r);
    let mut i: usize = 0;
    proof {
        reveal(Seq::filter_map);
        assert(raw@.take(0) =~= Seq::<RawAttachment>::empty());
        assert(attachments_view(attachments@) =~= raw@.take(0).filter_map(f));
    }
    while i < raw.len()
        invariant
            i <= raw@.len(),
            f == (|r: RawAttachment| attachment_of(r)),
            attachments_view(attachments@) == raw@.take(i as int).filter_map(f),
        decreases raw@.len() - i,
    {
        let r = &raw[i];
        proof {
            reveal(Seq::filter_map);
            let next = raw@.take(i as int + 1);
            assert(next.drop_last() =~= raw@.take(i as int));
            assert(next.last() == raw@[i as int]);
        }
        match &r.filename {
            Some(name) => {
                let mimetype = match &r.mimetype {
                    Some(m) => m.clone(),
                    None => String::from_str(guess_mimetype(name.as_str())),
                };
                let ghost before = attachments@;
                let info = AttachmentInfo { filename: name.clone(), mimetype };
                attachments.push(info);
                assert(attachments_view(attachments@) =~= attachments_view(before).push(
                    (info.filename@, info.mimetype@),
                ));
            },
            None => {},
        }
        i += 1;
    }
    assert(raw@.take(i as int) =~= raw@);
    attachments
}

// ---------------------------------------------------------------------------
// Chapters
// ---------------------------------------------------------------------------

/// A chapter as the probe reports it. The times are in milliseconds; a time that
/// could not be read is absent.
#[derive(Debug, Clone)]
pub struct RawChapter {
    pub start_ms: Option<i64>,
    pub end_ms: Option<i64>,
    pub title: Option<String>,
}

/// A chapter of a video. The times are in milliseconds from the start.
#[derive(Debug, Clone)]
pub struct Chapter {
    /// The position of the chapter among the chapters of its video, from 0.
    pub ordinal: u32,
    pub start_ms: i64,
    pub end_ms: i64,
    pub title: String,
}

/// A chapter, its title as a sequence of characters.
pub struct ChapterView {
    pub ordinal: u32,
    pub start_ms: i64,
    pub end_ms: i64,
    pub title: Seq<char>,
}

impl View for Chapter {
    type V = ChapterView;

    open spec fn view(&self) -> ChapterView {
        ChapterView {
            ordinal: self.ordinal,
            start_ms: self.start_ms,
            end_ms: self.end_ms,
            title: self.title@,
        }
    }
}

/// Whether a chapter lies on the time line: it does not start before the video
/// and ends after it starts.
pub open spec fn span_ok(start_ms: i64, end_ms: i64) -> bool {
    0 <= start_ms < end_ms
}

/// Whether a report describes a chapter: both of its times were read, and they
/// lie on the time line.
pub open spec fn describes_chapter(raw: RawChapter) -> bool {
    raw.start_ms is Some && raw.end_ms is Some && span_ok(raw.start_ms->0, raw.end_ms->0)
}

/// What holds of the chapters of a video: each lies on the time line, and their
/// ordinals count up from 0 without a gap.
pub open spec fn chapters_ok(chapters: Seq<ChapterView>) -> bool {
    forall|i: int|
        0 <= i < chapters.len() ==> (#[trigger] chapters[i]).ordinal == i && span_ok(
            chapters[i].start_ms,
            chapters[i].end_ms,
        )
}

/// The views of a sequence of chapters.
pub open spec fn chapters_view(chapters: Seq<Chapter>) -> Seq<ChapterView> {
    chapters.map_values(|c: Chapter| c@)
}

/// The reports that describe a chapter, in their order.
pub open spec fn chapter_reports(raw: Seq<RawChapter>) -> Seq<RawChapter> {
    raw.filter(|r: RawChapter| describes_chapter(r))
}

/// The chapter that the report at position `ordinal` of the kept reports
/// describes; a missing title is empty.
pub open spec fn chapter_of(ordinal: nat, raw: RawChapter) -> ChapterView {
    ChapterView {
        ordinal: ordinal as u32,
        start_ms: raw.start_ms->0,
        end_ms: raw.end_ms->0,
        title: match raw.title {
            Some(t) => t@,
            None => Seq::empty(),
        },
    }
}

/// Reads the report of the chapter probe: the chapters whose times were read and
/// lie on the time line, in the order of the report, numbered from 0. A probe
/// that ended with an error reports no chapters; nothing here is an error.
pub fn read_chapters(exited_ok: bool, raw: &Vec<RawChapter>) -> (chapters: Vec<Chapter>)
    requires
        raw@.len() <= u32::MAX,
    ensures
        chapters_ok(chapters_view(chapters@)),
        chapters@.len() == if exited_ok {
            chapter_reports(raw@).len()
        } else {
            0
        },
        forall|i: int|
            0 <= i < chapters@.len() ==> (#[trigger] chapters@[i])@ == chapter_of(
                i as nat,
                chapter_reports(raw@)[i],
            ),
{
    let mut chapters: Vec<Chapter> = Vec::new();
    if !exited_ok {
        return chapters;
    }
    let ghost keep = |r: RawChapter| describes_chapter(r);
    let mut i: usize = 0;
    proof {
        reveal(Seq::filter);
        assert(raw@.take(0) =~= Seq::<RawChapter>::empty());
    }
    while i < raw.len()
        invariant
            i <= raw@.len(),
            raw@.len() <= u32::MAX,
            keep == (|r: RawChapter| describes_chapter(r)),
            chapters@.len() == raw@.take(i as int).filter(keep).len(),
            chapters@.len() <= i,
            forall|k: int|
                0 <= k < chapters@.len() ==> (#[trigger] chapters@[k])@ == chapter_of(
                    k as nat,
                    raw@.take(i as int).filter(keep)[k],
                ),
        decreases raw@.len() - i,
    {
        let r = &raw[i];
        let ghost kept_before = raw@.take(i as int).filter(keep);
        proof {
            reveal(Seq::filter);
            let next = raw@.take(i as int + 1);
            assert(next.drop_last() =~= raw@.take(i as int));
            assert(next.last() == raw@[i as int]);
        }
        match (r.start_ms, r.end_ms) {
            (Some(start), Some(end)) => {
                if 0 <= start && start < end {
                    let chapter = Chapter {
                        ordinal: chapters.len() as u32,
                        start_ms: start,
                        end_ms: end,
                        title: match &r.title {
                            Some(t) => t.clone(),
                            None => String::new(),
                        },
                    };
                    chapters.push(chapter);
                    proof {
                        let kept = raw@.take(i as int + 1).filter(keep);
                        assert(kept == kept_before.push(raw@[i as int]));
                        assert forall|k: int| 0 <= k < chapters@.len() implies (
                        #[trigger] chapters@[k])@ == chapter_of(k as nat, kept[k]) by {
                            if k < chapters@.len() - 1 {
                                assert(kept[k] == kept_before[k]);
                            }
                        }
                    }
                }
            },
            _ => {},
        }
        i += 1;
    }
    proof {
        assert(raw@.take(i as int) =~= raw@);
        assert forall|k: int| 0 <= k < chapters@.len() implies (#[trigger] chapters_view(
            chapters@,
        )[k]).ordinal == k && span_ok(
            chapters_view(chapters@)[k].start_ms,
            chapters_view(chapters@)[k].end_ms,
        ) by {
            let kept = chapter_reports(raw@);
            assert(chapters@[k]@ == chapter_of(k as nat, kept[k]));
            raw@.lemma_filter_pred(keep, k);
        }
    }
    chapters
}

} // verus!
