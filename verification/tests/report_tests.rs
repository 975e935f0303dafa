use akane::json::{scalar_at, signed_at, text_at, unsigned_at};
use akane::pipeline::PipelineError;
use akane::report::{
    attachments_from, chapter_rows_from, count_rows, element_pointer_of, metadata_report,
    subtitle_streams_from,
};

const SUBTITLES: &str = r#"{
    "programs": [],
    "streams": [
        {
            "index": 2,
            "codec_name": "ass",
            "disposition": { "default": 1, "forced": 0 },
            "tags": { "language": "eng", "title": "Full \"signs\"" }
        },
        {
            "codec_name": "subrip",
            "disposition": { "default": 0, "forced": 1 },
            "tags": { "language": "jpn" }
        },
        {
            "index": "seven",
            "disposition": { "default": true },
            "tags": "none"
        }
    ]
}"#;

#[test]
fn places_of_a_document_are_read_by_kind() {
    let doc = r#"{"a": {"b": ["x", 5, -7, 1.5, null, true, {"c": "d"}]}, "n": 18446744073709551615}"#;
    assert_eq!(text_at(doc, "/a/b/0").as_deref(), Some("x"));
    assert_eq!(text_at(doc, "/a/b/1"), None);
    assert_eq!(text_at(doc, "/a/b/6/c").as_deref(), Some("d"));
    assert_eq!(text_at(doc, "/a/b/7"), None);
    assert_eq!(text_at(doc, "/a/x"), None);
    assert_eq!(signed_at(doc, "/a/b/1"), Some(5));
    assert_eq!(signed_at(doc, "/a/b/2"), Some(-7));
    assert_eq!(signed_at(doc, "/a/b/3"), None);
    assert_eq!(signed_at(doc, "/a/b/0"), None);
    assert_eq!(signed_at(doc, "/n"), None);
    assert_eq!(unsigned_at(doc, "/a/b/1"), Some(5));
    assert_eq!(unsigned_at(doc, "/a/b/2"), None);
    assert_eq!(unsigned_at(doc, "/n"), Some(u64::MAX));
    assert_eq!(scalar_at(doc, "/a/b/0").as_deref(), Some("x"));
    assert_eq!(scalar_at(doc, "/a/b/3").as_deref(), Some("1.5"));
    assert_eq!(scalar_at(doc, "/a/b/4"), None);
    assert_eq!(scalar_at(doc, "/a/b/5"), None);
    assert_eq!(text_at("not json", ""), None);
    assert_eq!(signed_at("{", "/a"), None);
}

#[test]
fn the_smallest_and_largest_integers_are_read() {
    let doc = r#"[-9223372036854775808, 9223372036854775807, 9223372036854775808, -0, 0]"#;
    assert_eq!(signed_at(doc, "/0"), Some(i64::MIN));
    assert_eq!(signed_at(doc, "/1"), Some(i64::MAX));
    assert_eq!(signed_at(doc, "/2"), None);
    assert_eq!(unsigned_at(doc, "/2"), Some(9223372036854775808));
    assert_eq!(signed_at(doc, "/3"), None);
    assert_eq!(signed_at(doc, "/4"), Some(0));
}

#[test]
fn pointers_name_a_field_of_an_element() {
    assert_eq!(element_pointer_of("/streams", 0, "/tags/title"), "/streams/0/tags/title");
    assert_eq!(element_pointer_of("/chapters", 12, "/end_time"), "/chapters/12/end_time");
    assert_eq!(element_pointer_of("/streams", 3, ""), "/streams/3");
}

#[test]
fn rows_are_counted() {
    assert_eq!(count_rows(SUBTITLES, "/streams"), Some(3));
    assert_eq!(count_rows(SUBTITLES, "/programs"), Some(0));
    assert_eq!(count_rows(SUBTITLES, "/chapters"), Some(0));
    assert_eq!(count_rows("{}", "/streams"), Some(0));
    assert_eq!(count_rows("{\"streams\": 5}", "/streams"), Some(0));
    assert_eq!(count_rows("", "/streams"), None);
    assert_eq!(count_rows("{\"streams\": [", "/streams"), None);
}

#[test]
fn the_metadata_report_gives_height_and_duration() {
    let report = r#"{"programs": [], "streams": [{"height": 1080}], "format": {"duration": "634.566667"}}"#;
    let (height, duration) = metadata_report(report);
    assert_eq!(height, Some(1080));
    assert_eq!(duration.as_deref(), Some("634.566667"));
    assert_eq!(metadata_report(r#"{"streams": [], "format": {}}"#), (None, None));
    assert_eq!(metadata_report(r#"{"streams": [{"height": "1080"}], "format": {"duration": 5}}"#), (None, None));
    assert_eq!(metadata_report(r#"{"streams": [{"height": -1}]}"#), (None, None));
    assert_eq!(metadata_report(""), (None, None));
}

#[test]
fn subtitle_streams_are_read_row_by_row() {
    let streams = subtitle_streams_from(true, SUBTITLES).unwrap();
    assert_eq!(streams.len(), 3);
    assert_eq!(streams[0].stream_index, 2);
    assert_eq!(streams[0].codec_name, "ass");
    assert_eq!(streams[0].language.as_deref(), Some("eng"));
    assert_eq!(streams[0].title.as_deref(), Some("Full \"signs\""));
    assert!(streams[0].is_default);
    assert!(!streams[0].is_forced);
    assert_eq!(streams[1].stream_index, 1);
    assert_eq!(streams[1].codec_name, "subrip");
    assert_eq!(streams[1].language.as_deref(), Some("jpn"));
    assert_eq!(streams[1].title, None);
    assert!(!streams[1].is_default);
    assert!(streams[1].is_forced);
    assert_eq!(streams[2].stream_index, 2);
    assert_eq!(streams[2].codec_name, "unknown");
    assert_eq!(streams[2].language, None);
    assert_eq!(streams[2].title, None);
    assert!(!streams[2].is_default);
    assert!(!streams[2].is_forced);
}

#[test]
fn a_subtitle_report_without_streams_describes_none() {
    assert!(subtitle_streams_from(true, "{}").unwrap().is_empty());
    assert!(subtitle_streams_from(true, r#"{"streams": []}"#).unwrap().is_empty());
    assert!(subtitle_streams_from(true, r#"{"streams": {"0": {}}}"#).unwrap().is_empty());
}

#[test]
fn a_failed_subtitle_probe_is_an_error() {
    assert!(matches!(
        subtitle_streams_from(false, SUBTITLES),
        Err(PipelineError::ProbeFailed { .. })
    ));
    assert!(matches!(
        subtitle_streams_from(true, "ffprobe: no such file"),
        Err(PipelineError::ProbeFailed { .. })
    ));
    assert!(matches!(subtitle_streams_from(true, ""), Err(PipelineError::ProbeFailed { .. })));
}

#[test]
fn attachments_are_read_and_their_types_guessed() {
    let report = r#"{"streams": [
        {"index": 3, "tags": {"filename": "Arial.TTF", "mimetype": "application/x-truetype-font"}},
        {"index": 4, "tags": {"filename": "Bold.TTF"}},
        {"index": 5, "tags": {"mimetype": "font/otf"}},
        {"index": 6, "tags": {"filename": "thin.otf"}},
        {"index": 7, "tags": {"filename": "a.woff"}},
        {"index": 8, "tags": {"filename": "cover.jpg"}},
        {"index": 9}
    ]}"#;
    let attachments = attachments_from(true, report).unwrap();
    let pairs: Vec<(&str, &str)> =
        attachments.iter().map(|a| (a.filename.as_str(), a.mimetype.as_str())).collect();
    assert_eq!(
        pairs,
        vec![
            ("Arial.TTF", "application/x-truetype-font"),
            ("Bold.TTF", "font/ttf"),
            ("thin.otf", "font/otf"),
            ("a.woff", "font/woff"),
            ("cover.jpg", "application/octet-stream"),
        ]
    );
}

#[test]
fn a_failed_attachment_probe_reports_none() {
    assert!(attachments_from(false, "whatever").unwrap().is_empty());
    assert!(attachments_from(true, "{}").unwrap().is_empty());
    assert!(matches!(attachments_from(true, "{"), Err(PipelineError::ProbeFailed { .. })));
}

#[test]
fn chapter_rows_carry_times_as_text() {
    let report = r#"{"chapters": [
        {"id": 0, "start_time": "0.000000", "end_time": "90.500000", "tags": {"title": "Intro"}},
        {"id": 1, "start_time": 90.5, "end_time": 120},
        {"id": 2, "start_time": null, "tags": {"title": 5}}
    ]}"#;
    let rows = chapter_rows_from(true, report).unwrap();
    assert_eq!(rows.len(), 3);
    assert_eq!(rows[0].start_time.as_deref(), Some("0.000000"));
    assert_eq!(rows[0].end_time.as_deref(), Some("90.500000"));
    assert_eq!(rows[0].title.as_deref(), Some("Intro"));
    assert_eq!(rows[1].start_time.as_deref(), Some("90.5"));
    assert_eq!(rows[1].end_time.as_deref(), Some("120"));
    assert_eq!(rows[1].title, None);
    assert_eq!(rows[2].start_time, None);
    assert_eq!(rows[2].end_time, None);
    assert_eq!(rows[2].title, None);
}

#[test]
fn a_failed_chapter_probe_reports_none() {
    assert!(chapter_rows_from(false, "whatever").unwrap().is_empty());
    assert!(chapter_rows_from(true, r#"{"chapters": []}"#).unwrap().is_empty());
    assert!(chapter_rows_from(true, "{}").unwrap().is_empty());
    assert!(matches!(chapter_rows_from(true, "nope"), Err(PipelineError::ProbeFailed { .. })));
}
