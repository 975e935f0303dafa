use akane::pipeline::PipelineError;
use akane::probe::{
    attachment_dump_command, attachment_probe_command, chapter_probe_command, guess_mimetype,
    metadata_probe_command, mimetype_by_extension, read_attachments, read_chapters, read_metadata,
    read_subtitle_streams, subtitle_extract_command, subtitle_probe_command, RawAttachment,
    RawChapter, RawSubtitleStream,
};

#[test]
fn probe_commands() {
    assert_eq!(
        metadata_probe_command("in.mkv"),
        vec!["-v", "error", "-select_streams", "v:0", "-show_entries", "stream=height:format=duration", "-of", "json", "in.mkv"]
    );
    assert_eq!(
        subtitle_probe_command("in.mkv"),
        vec![
            "-v", "error", "-select_streams", "s", "-show_entries",
            "stream=index,codec_name:stream_tags=language,title:stream_disposition=default,forced",
            "-of", "json", "in.mkv"
        ]
    );
    assert_eq!(
        attachment_probe_command("in.mkv"),
        vec!["-v", "error", "-select_streams", "t", "-show_entries", "stream=index:stream_tags=filename,mimetype", "-of", "json", "in.mkv"]
    );
    assert_eq!(chapter_probe_command("in.mkv"), vec!["-v", "error", "-show_chapters", "-of", "json", "in.mkv"]);
    assert_eq!(
        subtitle_extract_command("in.mkv", 2, "out/track_2.srt", "subrip"),
        vec!["-v", "error", "-y", "-i", "in.mkv", "-map", "0:s:2", "-c:s", "srt", "out/track_2.srt"]
    );
    assert_eq!(
        subtitle_extract_command("in.mkv", 0, "o.ass", "pgs")[8],
        "ass"
    );
    assert_eq!(
        attachment_dump_command("in.mkv"),
        vec!["-v", "error", "-y", "-dump_attachment:t", "", "-i", "in.mkv"]
    );
}

#[test]
fn metadata_is_read_or_the_probe_has_failed() {
    assert_eq!(read_metadata(true, Some(1080), Some(95)).unwrap(), (1080, 95));
    assert!(matches!(read_metadata(false, Some(1080), Some(95)), Err(PipelineError::ProbeFailed { .. })));
    assert!(matches!(read_metadata(true, None, Some(95)), Err(PipelineError::ProbeFailed { .. })));
    assert!(matches!(read_metadata(true, Some(1080), None), Err(PipelineError::ProbeFailed { .. })));
    assert!(matches!(read_metadata(true, Some(1 << 40), Some(1)), Err(PipelineError::ProbeFailed { .. })));
    assert_eq!(read_metadata(true, Some(u32::MAX as u64), Some(0)).unwrap(), (u32::MAX, 0));
}

#[test]
fn subtitle_streams_get_defaults_for_missing_fields() {
    let raw = vec![
        RawSubtitleStream {
            index: Some(3),
            codec_name: Some("ass".into()),
            language: Some("eng".into()),
            title: Some("Full".into()),
            default_flag: Some(1),
            forced_flag: Some(0),
        },
        RawSubtitleStream {
            index: None,
            codec_name: None,
            language: None,
            title: None,
            default_flag: None,
            forced_flag: Some(1),
        },
        RawSubtitleStream {
            index: Some(-1),
            codec_name: Some("subrip".into()),
            language: None,
            title: None,
            default_flag: Some(2),
            forced_flag: None,
        },
    ];
    let s = read_subtitle_streams(&raw);
    assert_eq!(s.len(), 3);
    assert_eq!((s[0].stream_index, s[0].codec_name.as_str()), (3, "ass"));
    assert_eq!(s[0].language.as_deref(), Some("eng"));
    assert_eq!(s[0].title.as_deref(), Some("Full"));
    assert_eq!((s[0].is_default, s[0].is_forced), (true, false));
    assert_eq!((s[1].stream_index, s[1].codec_name.as_str()), (1, "unknown"));
    assert_eq!((s[1].is_default, s[1].is_forced), (false, true));
    assert_eq!(s[1].language, None);
    assert_eq!((s[2].stream_index, s[2].is_default, s[2].is_forced), (-1, false, false));
    assert!(read_subtitle_streams(&Vec::new()).is_empty());
}

#[test]
fn media_types_are_guessed_from_the_extension() {
    assert_eq!(guess_mimetype("a.ttf"), "font/ttf");
    assert_eq!(guess_mimetype("A.TTF"), "font/ttf");
    assert_eq!(guess_mimetype("a.otf"), "font/otf");
    assert_eq!(guess_mimetype("a.OTF"), "application/octet-stream");
    assert_eq!(guess_mimetype("a.woff"), "font/woff");
    assert_eq!(guess_mimetype("a.woff2"), "font/woff2");
    assert_eq!(guess_mimetype("a.png"), "application/octet-stream");
    assert_eq!(guess_mimetype(""), "application/octet-stream");
    assert_eq!(mimetype_by_extension("X", "x.ttf"), "font/ttf");
    assert_eq!(mimetype_by_extension("x.otf", "nothing"), "font/otf");
}

#[test]
fn attachments_without_a_name_are_left_out() {
    let raw = vec![
        RawAttachment { filename: Some("A.TTF".into()), mimetype: None },
        RawAttachment { filename: None, mimetype: Some("font/ttf".into()) },
        RawAttachment { filename: Some("b.bin".into()), mimetype: Some("application/x-font".into()) },
        RawAttachment { filename: Some("c.woff2".into()), mimetype: None },
    ];
    let a = read_attachments(true, &raw);
    let got: Vec<(&str, &str)> = a.iter().map(|x| (x.filename.as_str(), x.mimetype.as_str())).collect();
    assert_eq!(
        got,
        vec![("A.TTF", "font/ttf"), ("b.bin", "application/x-font"), ("c.woff2", "font/woff2")]
    );
    assert!(read_attachments(false, &raw).is_empty());
    assert!(read_attachments(true, &Vec::new()).is_empty());
}

#[test]
fn chapters_with_unreadable_or_impossible_times_are_dropped() {
    let raw = vec![
        RawChapter { start_ms: Some(0), end_ms: Some(60_000), title: Some("Intro".into()) },
        RawChapter { start_ms: None, end_ms: Some(70_000), title: Some("lost".into()) },
        RawChapter { start_ms: Some(60_000), end_ms: Some(60_000), title: Some("empty".into()) },
        RawChapter { start_ms: Some(-5), end_ms: Some(10), title: Some("early".into()) },
        RawChapter { start_ms: Some(60_000), end_ms: Some(90_500), title: None },
        RawChapter { start_ms: Some(5), end_ms: None, title: None },
    ];
    let c = read_chapters(true, &raw);
    let got: Vec<(u32, i64, i64, &str)> =
        c.iter().map(|x| (x.ordinal, x.start_ms, x.end_ms, x.title.as_str())).collect();
    assert_eq!(got, vec![(0, 0, 60_000, "Intro"), (1, 60_000, 90_500, "")]);
    assert!(read_chapters(false, &raw).is_empty());
    assert!(read_chapters(true, &Vec::new()).is_empty());
}
