use akane::pipeline::{
    final_frame, font_key_of, key_prefix_of, plan_variants, player_url_of, stderr_tail,
    stored_attachments, subtitle_file_name_of, subtitle_format_of, subtitle_key_of,
    subtitle_tracks, thumbnail_key_of, transcode_failed, variant_labels, PipelineError,
    STDERR_TAIL_CHARS,
};
use akane::probe::{AttachmentInfo, SubtitleStreamInfo};
use akane::storage::{file_stored, finish_upload, plan_upload, UploadPlan, DEFAULT_CONCURRENT_UPLOADS};

#[test]
fn a_source_below_the_ladder_is_too_small() {
    match plan_variants(400) {
        Err(PipelineError::SourceTooSmall { height }) => assert_eq!(height, 400),
        other => panic!("unexpected {:?}", other),
    }
    assert!(matches!(plan_variants(479), Err(PipelineError::SourceTooSmall { height: 479 })));
    let v = plan_variants(480).unwrap();
    assert_eq!(variant_labels(&v), vec!["480p"]);
    assert_eq!(variant_labels(&plan_variants(1080).unwrap()), vec!["480p", "720p", "1080p"]);
}

#[test]
fn error_messages() {
    assert_eq!(
        PipelineError::SourceTooSmall { height: 400 }.message(),
        "No suitable variants for video height 400"
    );
    assert_eq!(
        PipelineError::NoMasterPlaylist.message(),
        "no master playlist (index.m3u8) generated"
    );
    assert_eq!(
        PipelineError::ProbeFailed { reason: "no height found".into() }.message(),
        "ffprobe failed: no height found"
    );
    assert_eq!(
        PipelineError::ObjectStorePutFailed { key: "v/a.ts".into(), cause: "timeout".into() }.message(),
        "upload v/a.ts: timeout"
    );
    assert_eq!(
        PipelineError::PersistenceFailed { cause: "locked".into() }.message(),
        "failed to save video: locked"
    );
    assert_eq!(PipelineError::Internal { cause: "oops".into() }.message(), "oops");
    assert_eq!(
        transcode_failed("720p", "bad input").message(),
        "ffmpeg failed for variant 720p: bad input"
    );
}

#[test]
fn only_the_end_of_the_error_output_is_kept() {
    assert_eq!(STDERR_TAIL_CHARS, 2000);
    assert_eq!(stderr_tail(""), "");
    assert_eq!(stderr_tail("short"), "short");
    let long = format!("{}{}", "x".repeat(500), "é".repeat(2000));
    assert_eq!(stderr_tail(&long), "é".repeat(2000));
    let exact = "y".repeat(2000);
    assert_eq!(stderr_tail(&exact), exact);
    let over = format!("a{}", exact);
    assert_eq!(stderr_tail(&over), exact);
}

#[test]
fn subtitle_formats_and_names() {
    assert_eq!(subtitle_format_of("ass"), "ass");
    assert_eq!(subtitle_format_of("ssa"), "ass");
    assert_eq!(subtitle_format_of("subrip"), "srt");
    assert_eq!(subtitle_format_of("srt"), "srt");
    assert_eq!(subtitle_format_of("hdmv_pgs_subtitle"), "ass");
    assert_eq!(subtitle_format_of(""), "ass");
    assert_eq!(subtitle_file_name_of(0, "ass"), "track_0.ass");
    assert_eq!(subtitle_file_name_of(12, "subrip"), "track_12.srt");
}

#[test]
fn keys_of_the_object_store() {
    assert_eq!(key_prefix_of("vid"), "vid/");
    assert_eq!(thumbnail_key_of("vid"), "vid/thumbnail.jpg");
    assert_eq!(subtitle_key_of("vid", 2, "srt"), "vid/subtitles/track_2.srt");
    assert_eq!(font_key_of("vid", "Arial.ttf"), "vid/fonts/Arial.ttf");
    assert_eq!(player_url_of("vid"), "/player/vid");
}

#[test]
fn the_last_entry_tells_how_the_job_ended() {
    let done = final_frame("U1", "clip", Ok("vid"));
    assert_eq!(done.stage, "Completed");
    assert_eq!(done.status, "completed");
    assert_eq!(done.percentage, 100);
    let result = done.result.unwrap();
    assert_eq!(result.player_url, "/player/vid");
    assert_eq!(result.upload_id, "U1");
    let error = PipelineError::SourceTooSmall { height: 400 };
    let failed = final_frame("U1", "clip", Err(&error));
    assert_eq!(failed.stage, "Failed");
    assert_eq!(failed.status, "failed");
    assert_eq!(failed.percentage, 0);
    assert_eq!(failed.error.as_deref(), Some("No suitable variants for video height 400"));
    assert_eq!(
        failed.details.as_deref(),
        Some("Processing failed: No suitable variants for video height 400")
    );
    assert_eq!(failed.video_name.as_deref(), Some("clip"));
}

fn paths(list: &[&str]) -> Vec<String> {
    list.iter().map(|s| s.to_string()).collect()
}

#[test]
fn every_file_gets_the_prefix_and_the_master_is_found() {
    assert_eq!(DEFAULT_CONCURRENT_UPLOADS, 30);
    let plan = plan_upload(
        "vid/",
        &paths(&["480p/index.m3u8", "480p/segment_000.ts", "index.m3u8", "thumbnail.jpg"]),
    );
    assert_eq!(
        plan.keys,
        vec!["vid/480p/index.m3u8", "vid/480p/segment_000.ts", "vid/index.m3u8", "vid/thumbnail.jpg"]
    );
    assert_eq!(plan.master_key.as_deref(), Some("vid/index.m3u8"));
    assert_eq!(finish_upload(plan, None).unwrap(), "vid/index.m3u8");
}

#[test]
fn a_playlist_of_a_variant_is_not_the_master() {
    let plan = plan_upload("vid/", &paths(&["480p/index.m3u8", "x/index.m3u8", "thumbnail.jpg"]));
    assert_eq!(plan.master_key, None);
    assert!(matches!(finish_upload(plan, None), Err(PipelineError::NoMasterPlaylist)));
    let empty = plan_upload("vid/", &Vec::new());
    assert!(empty.keys.is_empty());
    assert!(matches!(finish_upload(empty, None), Err(PipelineError::NoMasterPlaylist)));
}

#[test]
fn a_refused_file_ends_the_upload() {
    let plan = UploadPlan { keys: paths(&["vid/index.m3u8"]), master_key: Some("vid/index.m3u8".into()) };
    let failure = PipelineError::ObjectStorePutFailed { key: "vid/a.ts".into(), cause: "503".into() };
    match finish_upload(plan, Some(failure)) {
        Err(PipelineError::ObjectStorePutFailed { key, cause }) => {
            assert_eq!(key, "vid/a.ts");
            assert_eq!(cause, "503");
        }
        other => panic!("unexpected {:?}", other),
    }
}

#[test]
fn stored_files_are_counted() {
    let mut uploaded = 0u32;
    let mut last = 0;
    for n in 1..=8u32 {
        let f = file_stored(&mut uploaded, 8, Some("clip"));
        assert_eq!(uploaded, n);
        assert_eq!(f.stage, "Upload to R2");
        assert_eq!((f.current_chunk, f.total_chunks), (n, 8));
        assert_eq!(f.percentage, 100 * n / 8);
        assert!(f.percentage >= last);
        last = f.percentage;
        assert_eq!(f.details, Some(format!("Uploaded {}/8 files", n)));
    }
    assert_eq!(last, 100);
}

#[test]
fn tracks_are_numbered_by_their_position_among_the_subtitle_streams() {
    let streams = vec![
        SubtitleStreamInfo {
            stream_index: 4,
            codec_name: "ass".into(),
            language: Some("eng".into()),
            title: None,
            is_default: true,
            is_forced: false,
        },
        SubtitleStreamInfo {
            stream_index: 7,
            codec_name: "subrip".into(),
            language: None,
            title: Some("Signs".into()),
            is_default: false,
            is_forced: true,
        },
    ];
    let tracks = subtitle_tracks("vid", &streams);
    assert_eq!(tracks.len(), 2);
    assert_eq!((tracks[0].track_index, tracks[1].track_index), (0, 1));
    assert_eq!(tracks[0].storage_key, "vid/subtitles/track_0.ass");
    assert_eq!(tracks[1].storage_key, "vid/subtitles/track_1.srt");
    assert_eq!(tracks[0].language.as_deref(), Some("eng"));
    assert_eq!(tracks[1].title.as_deref(), Some("Signs"));
    assert_eq!((tracks[0].is_default, tracks[1].is_forced), (true, true));
    assert_eq!(tracks[1].codec, "subrip");
    assert!(subtitle_tracks("vid", &Vec::new()).is_empty());
    let fonts = stored_attachments(
        "vid",
        &vec![AttachmentInfo { filename: "A.ttf".into(), mimetype: "font/ttf".into() }],
    );
    assert_eq!(fonts.len(), 1);
    assert_eq!(fonts[0].storage_key, "vid/fonts/A.ttf");
    assert_eq!((fonts[0].filename.as_str(), fonts[0].mimetype.as_str()), ("A.ttf", "font/ttf"));
}

#[test]
fn the_working_directory_of_a_job() {
    assert_eq!(akane::pipeline::work_dir_of("/tmp", "abc"), "/tmp/hls-abc");
    assert_eq!(akane::pipeline::subtitles_dir_of("/tmp/hls-abc"), "/tmp/hls-abc/subtitles");
    assert_eq!(akane::pipeline::fonts_dir_of("/tmp/hls-abc"), "/tmp/hls-abc/fonts");
}
