//! The reports of the probes: what FFprobe writes as JSON, read place by place
//! into the rows that the prober works on.
//!
//! A report is a document with a list, `streams` or `chapters`; a row is one
//! element of the list. A field that a row lacks, or that holds something of
//! another kind, is absent.

use crate::json::{
    item_scalar, item_signed, item_text, item_unsigned, json_item, read_json_item, scalar_at,
    signed_at, text_at, unsigned_at, JsonItem, JsonItemView,
};
use crate::pipeline::PipelineError;
use crate::probe::{
    attachment_of, attachments_of, attachments_view, read_attachments, read_subtitle_streams,
    subtitle_stream_of, AttachmentInfo, RawAttachment, RawSubtitleStream, SubtitleStreamInfo,
    SubtitleStreamView,
};
use crate::text::{concat2, decimal, opt_chars, push_decimal};
use vstd::prelude::*;
use vstd::string::*;

verus! {

// ---------------------------------------------------------------------------
// Places
// ---------------------------------------------------------------------------

/// The JSON pointer of the field `field` of element `i` of the list `list`.
pub open spec fn element_pointer(list: Seq<char>, i: nat, field: Seq<char>) -> Seq<char> {
    list + "/"@ + decimal(i) + field
}

/// Writes the JSON pointer of a field of an element of a list.
pub fn element_pointer_of(list: &str, i: usize, field: &str) -> (p: String)
    ensures
        p@ == element_pointer(list@, i as nat, field@),
{
    let mut p = concat2(list, "/");
    push_decimal(&mut p, i as u64);
    p.append(field);
    p
}

/// The number of rows of a report whose list stands at `list`: that of the
/// elements of the list, and none where the document has no list there. A text
/// that is no JSON document has no rows to count.
pub open spec fn reported_rows(report: Seq<char>, list: Seq<char>) -> Option<nat> {
    match json_item(report, list) {
        JsonItemView::NotJson => None,
        JsonItemView::Array(n) => Some(n),
        _ => Some(0),
    }
}

/// Counts the rows of a report.
pub fn count_rows(report: &str, list: &str) -> (r: Option<usize>)
    ensures
        match r {
            Some(n) => reported_rows(report@, list@) == Some(n as nat),
            None => reported_rows(report@, list@) is None,
        },
{
    match read_json_item(report, list) {
        JsonItem::NotJson => None,
        JsonItem::Array(n) => Some(n),
        _ => Some(0),
    }
}

fn not_json() -> (e: PipelineError)
    ensures
        e matches PipelineError::ProbeFailed { reason } && reason@
            == "the report is no JSON document"@,
{
    PipelineError::ProbeFailed { reason: String::from_str("the report is no JSON document") }
}

// ---------------------------------------------------------------------------
// Metadata
// ---------------------------------------------------------------------------

/// The height of the first video stream that a metadata report gives.
pub open spec fn reported_height(report: Seq<char>) -> Option<u64> {
    item_unsigned(json_item(report, "/streams/0/height"@))
}

/// The duration that a metadata report gives: a decimal fraction of seconds, as
/// text.
pub open spec fn reported_duration(report: Seq<char>) -> Option<Seq<char>> {
    item_text(json_item(report, "/format/duration"@))
}

/// Takes the height and the duration out of a metadata report.
pub fn metadata_report(report: &str) -> (r: (Option<u64>, Option<String>))
    ensures
        r.0 == reported_height(report@),
        opt_chars(r.1) == reported_duration(report@),
{
    (unsigned_at(report, "/streams/0/height"), text_at(report, "/format/duration"))
}

// ---------------------------------------------------------------------------
// Subtitle streams
// ---------------------------------------------------------------------------

/// The subtitle stream that row `i` of a report describes.
pub open spec fn reported_subtitle_stream(report: Seq<char>, i: nat) -> SubtitleStreamView {
    SubtitleStreamView {
        stream_index: match item_signed(
            json_item(report, element_pointer("/streams"@, i, "/index"@)),
        ) {
            Some(x) => x,
            None => if i <= i64::MAX {
                i as i64
            } else {
                i64::MAX
            },
        },
        codec_name: match item_text(
            json_item(report, element_pointer("/streams"@, i, "/codec_name"@)),
        ) {
            Some(c) => c,
            None => "unknown"@,
        },
        language: item_text(json_item(report, element_pointer("/streams"@, i, "/tags/language"@))),
        title: item_text(json_item(report, element_pointer("/streams"@, i, "/tags/title"@))),
        is_default: item_signed(
            json_item(report, element_pointer("/streams"@, i, "/disposition/default"@)),
        ) == Some(1i64),
        is_forced: item_signed(
            json_item(report, element_pointer("/streams"@, i, "/disposition/forced"@)),
        ) == Some(1i64),
    }
}

/// The subtitle streams that a report describes, row by row; none for a text that
/// is no JSON document.
pub open spec fn reported_subtitle_streams(report: Seq<char>) -> Option<Seq<SubtitleStreamView>> {
    match reported_rows(report, "/streams"@) {
        Some(n) => Some(Seq::new(n, |i: int| reported_subtitle_stream(report, i as nat))),
        None => None,
    }
}

/// The views of a sequence of subtitle streams.
pub open spec fn streams_view(streams: Seq<SubtitleStreamInfo>) -> Seq<SubtitleStreamView> {
    streams.map_values(|s: SubtitleStreamInfo| s@)
}

spec fn subtitle_row_read(report: Seq<char>, i: nat, raw: RawSubtitleStream) -> bool {
    &&& raw.index == item_signed(json_item(report, element_pointer("/streams"@, i, "/index"@)))
    &&& opt_chars(raw.codec_name) == item_text(
        json_item(report, element_pointer("/streams"@, i, "/codec_name"@)),
    )
    &&& opt_chars(raw.language) == item_text(
        json_item(report, element_pointer("/streams"@, i, "/tags/language"@)),
    )
    &&& opt_chars(raw.title) == item_text(
        json_item(report, element_pointer("/streams"@, i, "/tags/title"@)),
    )
    &&& raw.default_flag == item_signed(
        json_item(report, element_pointer("/streams"@, i, "/disposition/default"@)),
    )
    &&& raw.forced_flag == item_signed(
        json_item(report, element_pointer("/streams"@, i, "/disposition/forced"@)),
    )
}

fn subtitle_row(report: &str, i: usize) -> (raw: RawSubtitleStream)
    ensures
        subtitle_row_read(report@, i as nat, raw),
{
    RawSubtitleStream {
        index: signed_at(report, element_pointer_of("/streams", i, "/index").as_str()),
        codec_name: text_at(report, element_pointer_of("/streams", i, "/codec_name").as_str()),
        language: text_at(report, element_pointer_of("/streams", i, "/tags/language").as_str()),
        title: text_at(report, element_pointer_of("/streams", i, "/tags/title").as_str()),
        default_flag: signed_at(
            report,
            element_pointer_of("/streams", i, "/disposition/default").as_str(),
        ),
        forced_flag: signed_at(
            report,
            element_pointer_of("/streams", i, "/disposition/forced").as_str(),
        ),
    }
}

/// Reads the report of the subtitle probe: the subtitle streams of the source, in
/// the order of the report.
///
/// The probe has failed where the process ended with an error or its output is no
/// JSON document. A document without a list of streams describes none.
pub fn subtitle_streams_from(exited_ok: bool, report: &str) -> (r: Result<
    Vec<SubtitleStreamInfo>,
    PipelineError,
>)
    ensures
        match r {
            Ok(streams) => exited_ok && reported_subtitle_streams(report@) == Some(
                streams_view(streams@),
            ),
            Err(e) => e is ProbeFailed && (!exited_ok || reported_subtitle_streams(report@)
                is None),
        },
{
    if !exited_ok {
        return Err(
            PipelineError::ProbeFailed { reason: String::from_str("ffprobe for subtitles failed") },
        );
    }
    let n = match count_rows(report, "/streams") {
        Some(n) => n,
        None => {
            return Err(not_json());
        },
    };
    let mut raw: Vec<RawSubtitleStream> = Vec::new();
    let mut i: usize = 0;
    while i < n
        invariant
            i <= n,
            raw@.len() == i,
            forall|k: int| 0 <= k < i ==> subtitle_row_read(report@, k as nat, #[trigger] raw@[k]),
        decreases n - i,
    {
        raw.push(subtitle_row(report, i));
        i += 1;
    }
    let streams = read_subtitle_streams(&raw);
    proof {
        let told = Seq::new(n as nat, |i: int| reported_subtitle_stream(report@, i as nat));
        assert forall|k: int| 0 <= k < n implies streams_view(streams@)[k] == told[k] by {
            assert(subtitle_row_read(report@, k as nat, raw@[k]));
            assert(streams@[k]@ == subtitle_stream_of(k as nat, raw@[k]));
        }
        assert(streams_view(streams@) =~= told);
    }
    Ok(streams)
}

// ---------------------------------------------------------------------------
// Attachments
// ---------------------------------------------------------------------------

/// The attachment that row `i` of a report describes, if the row names a file:
/// with the media type that the row gives, or the one guessed from the name.
pub open spec fn reported_attachment(report: Seq<char>, i: nat) -> Option<(Seq<char>, Seq<char>)> {
    match item_text(json_item(report, element_pointer("/streams"@, i, "/tags/filename"@))) {
        Some(name) => Some(
            (
                name,
                match item_text(
                    json_item(report, element_pointer("/streams"@, i, "/tags/mimetype"@)),
                ) {
                    Some(m) => m,
                    None => crate::probe::guessed_mimetype(name),
                },
            ),
        ),
        None => None,
    }
}

/// The attachments that the first `n` rows of a report describe, in their order,
/// the rows without a file name left out.
pub open spec fn attachments_among(report: Seq<char>, n: nat) -> Seq<(Seq<char>, Seq<char>)>
    decreases n,
{
    if n == 0 {
        Seq::empty()
    } else {
        match reported_attachment(report, (n - 1) as nat) {
            Some(a) => attachments_among(report, (n - 1) as nat).push(a),
            None => attachments_among(report, (n - 1) as nat),
        }
    }
}

/// The attachments that a report describes; none for a text that is no JSON
/// document.
pub open spec fn reported_attachments(report: Seq<char>) -> Option<Seq<(Seq<char>, Seq<char>)>> {
    match reported_rows(report, "/streams"@) {
        Some(n) => Some(attachments_among(report, n)),
        None => None,
    }
}

spec fn attachment_row_read(report: Seq<char>, i: nat, raw: RawAttachment) -> bool {
    &&& opt_chars(raw.filename) == item_text(
        json_item(report, element_pointer("/streams"@, i, "/tags/filename"@)),
    )
    &&& opt_chars(raw.mimetype) == item_text(
        json_item(report, element_pointer("/streams"@, i, "/tags/mimetype"@)),
    )
}

fn attachment_row(report: &str, i: usize) -> (raw: RawAttachment)
    ensures
        attachment_row_read(report@, i as nat, raw),
{
    RawAttachment {
        filename: text_at(report, element_pointer_of("/streams", i, "/tags/filename").as_str()),
        mimetype: text_at(report, element_pointer_of("/streams", i, "/tags/mimetype").as_str()),
    }
}

proof fn lemma_rows_describe(report: Seq<char>, raw: Seq<RawAttachment>)
    requires
        forall|k: int| 0 <= k < raw.len() ==> attachment_row_read(report, k as nat, #[trigger] raw[k]),
    ensures
        attachments_of(raw) == attachments_among(report, raw.len()),
    decreases raw.len(),
{
    reveal(Seq::filter_map);
    if raw.len() > 0 {
        let front = raw.drop_last();
        assert forall|k: int| 0 <= k < front.len() implies attachment_row_read(
            report,
            k as nat,
            #[trigger] front[k],
        ) by {
            assert(front[k] == raw[k]);
        }
        lemma_rows_describe(report, front);
        assert(attachment_row_read(report, (raw.len() - 1) as nat, raw.last()));
        assert(attachment_of(raw.last()) == reported_attachment(report, (raw.len() - 1) as nat));
    }
}

/// Reads the report of the attachment probe: the files attached to the source, in
/// the order of the report.
///
/// A probe that ended with an error reports no attachments. The probe has failed
/// where its output is no JSON document.
pub fn attachments_from(exited_ok: bool, report: &str) -> (r: Result<
    Vec<AttachmentInfo>,
    PipelineError,
>)
    ensures
        match r {
            Ok(attachments) => if exited_ok {
                reported_attachments(report@) == Some(attachments_view(attachments@))
            } else {
                attachments@.len() == 0
            },
            Err(e) => e is ProbeFailed && exited_ok && reported_attachments(report@) is None,
        },
{
    if !exited_ok {
        return Ok(Vec::new());
    }
    let n = match count_rows(report, "/streams") {
        Some(n) => n,
        None => {
            return Err(not_json());
        },
    };
    let mut raw: Vec<RawAttachment> = Vec::new();
    let mut i: usize = 0;
    while i < n
        invariant
            i <= n,
            raw@.len() == i,
            forall|k: int| 0 <= k < i ==> attachment_row_read(report@, k as nat, #[trigger] raw@[k]),
        decreases n - i,
    {
        raw.push(attachment_row(report, i));
        i += 1;
    }
    let attachments = read_attachments(true, &raw);
    proof {
        lemma_rows_describe(report@, raw@);
    }
    Ok(attachments)
}

// ---------------------------------------------------------------------------
// Chapters
// ---------------------------------------------------------------------------

/// A row of the chapter report: the two times as the report writes them, decimal
/// fractions of seconds, and the title.
#[derive(Debug, Clone)]
pub struct ChapterRow {
    pub start_time: Option<String>,
    pub end_time: Option<String>,
    pub title: Option<String>,
}

/// A [`ChapterRow`], its strings as sequences of characters.
pub struct ChapterRowView {
    pub start_time: Option<Seq<char>>,
    pub end_time: Option<Seq<char>>,
    pub title: Option<Seq<char>>,
}

impl View for ChapterRow {
    type V = ChapterRowView;

    open spec fn view(&self) -> ChapterRowView {
        ChapterRowView {
            start_time: opt_chars(self.start_time),
            end_time: opt_chars(self.end_time),
            title: opt_chars(self.title),
        }
    }
}

/// Row `i` of a chapter report. A time may be written as a string or as a number.
pub open spec fn reported_chapter(report: Seq<char>, i: nat) -> ChapterRowView {
    ChapterRowView {
        start_time: item_scalar(json_item(report, element_pointer("/chapters"@, i, "/start_time"@))),
        end_time: item_scalar(json_item(report, element_pointer("/chapters"@, i, "/end_time"@))),
        title: item_text(json_item(report, element_pointer("/chapters"@, i, "/tags/title"@))),
    }
}

/// The rows of a chapter report; none for a text that is no JSON document.
pub open spec fn reported_chapters(report: Seq<char>) -> Option<Seq<ChapterRowView>> {
    match reported_rows(report, "/chapters"@) {
        Some(n) => Some(Seq::new(n, |i: int| reported_chapter(report, i as nat))),
        None => None,
    }
}

/// The views of a sequence of chapter rows.
pub open spec fn rows_view(rows: Seq<ChapterRow>) -> Seq<ChapterRowView> {
    rows.map_values(|r: ChapterRow| r@)
}

/// Reads the rows of the report of the chapter probe, in its order.
///
/// A probe that ended with an error reports no chapters. The probe has failed
/// where its output is no JSON document.
pub fn chapter_rows_from(exited_ok: bool, report: &str) -> (r: Result<
    Vec<ChapterRow>,
    PipelineError,
>)
    ensures
        match r {
            Ok(rows) => if exited_ok {
                reported_chapters(report@) == Some(rows_view(rows@))
            } else {
                rows@.len() == 0
            },
            Err(e) => e is ProbeFailed && exited_ok && reported_chapters(report@) is None,
        },
{
    if !exited_ok {
        return Ok(Vec::new());
    }
    let n = match count_rows(report, "/chapters") {
        Some(n) => n,
        None => {
            return Err(not_json());
        },
    };
    let mut rows: Vec<ChapterRow> = Vec::new();
    let mut i: usize = 0;
    while i < n
        invariant
            i <= n,
            rows@.len() == i,
            forall|k: int| 0 <= k < i ==> (#[trigger] rows@[k])@ == reported_chapter(report@, k as nat),
        decreases n - i,
    {
        let row = ChapterRow {
            start_time: scalar_at(
                report,
                element_pointer_of("/chapters", i, "/start_time").as_str(),
            ),
            end_time: scalar_at(report, element_pointer_of("/chapters", i, "/end_time").as_str()),
            title: text_at(report, element_pointer_of("/chapters", i, "/tags/title").as_str()),
        };
        rows.push(row);
        i += 1;
    }
    assert(rows_view(rows@) =~= Seq::new(n as nat, |i: int| reported_chapter(report@, i as nat)));
    Ok(rows)
}

} // verus!
