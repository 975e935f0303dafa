use akane::catalog::{
    analytics_video, check_delete_request, deletion_prefixes, deletion_response,
    normalize_query, page_offset, page_response, public_url_of, push_unquoted,
    requested_track_of, search_pattern_from, search_pattern_of, subtitle_content_type_of,
    subtitle_engine_asset, update_error, video_entry, DeleteError, UpdateError,
    DEFAULT_PAGE_SIZE, MAX_PAGE_SIZE,
};
use akane::forms::{read_chunk_form, read_upload_form, upload_path, ChunkForm, FormError, UploadForm};
use akane::types::{VideoQuery, VideoSummary};

fn query(page: Option<u32>, page_size: Option<u32>, name: Option<&str>, tag: Option<&str>) -> VideoQuery {
    VideoQuery { page, page_size, name: name.map(|s| s.to_string()), tag: tag.map(|s| s.to_string()) }
}

#[test]
fn pages_are_brought_into_range() {
    assert_eq!((DEFAULT_PAGE_SIZE, MAX_PAGE_SIZE), (20, 100));
    assert_eq!(normalize_query(&query(None, None, None, None)), (1, 20));
    assert_eq!(normalize_query(&query(Some(0), Some(0), None, None)), (1, 1));
    assert_eq!(normalize_query(&query(Some(7), Some(100), None, None)), (7, 100));
    assert_eq!(normalize_query(&query(Some(u32::MAX), Some(101), None, None)), (u32::MAX, 100));
    assert_eq!(page_offset(1, 20), 0);
    assert_eq!(page_offset(3, 20), 40);
    assert_eq!(page_offset(u32::MAX, 100), (u32::MAX as u64 - 1) * 100);
}

#[test]
fn a_page_knows_its_neighbours() {
    let r = page_response(Vec::new(), 1, 20, 45);
    assert_eq!((r.page, r.page_size, r.total, r.has_prev, r.has_next), (1, 20, 45, false, true));
    let r = page_response(Vec::new(), 2, 20, 45);
    assert_eq!((r.has_prev, r.has_next), (true, true));
    let r = page_response(Vec::new(), 3, 20, 45);
    assert_eq!((r.has_prev, r.has_next), (true, false));
    let r = page_response(Vec::new(), 2, 20, 40);
    assert!(!r.has_next);
    let r = page_response(Vec::new(), 1, 20, -3);
    assert_eq!((r.total, r.has_next), (0, false));
}

#[test]
fn search_patterns() {
    assert_eq!(search_pattern_of(&query(None, None, None, None)), None);
    assert_eq!(
        search_pattern_of(&query(None, None, Some("My \"Clip\""), None)).as_deref(),
        Some("name:\"my clip\"*")
    );
    assert_eq!(
        search_pattern_of(&query(None, None, None, Some("Sci\"Fi"))).as_deref(),
        Some("tags:\"SciFi\"")
    );
    assert_eq!(
        search_pattern_of(&query(None, None, Some("ÄB"), Some("t"))).as_deref(),
        Some("name:\"äb\"* AND tags:\"t\"")
    );
    assert_eq!(search_pattern_from(Some("x"), None).as_deref(), Some("name:\"x\"*"));
    let mut s = String::from(">");
    push_unquoted(&mut s, "\"a\"\"b\"");
    assert_eq!(s, ">ab");
}

#[test]
fn public_addresses() {
    assert_eq!(public_url_of("https://cdn.example/", "v/thumbnail.jpg"), "https://cdn.example/v/thumbnail.jpg");
    assert_eq!(public_url_of("https://cdn.example///", "k"), "https://cdn.example/k");
    assert_eq!(public_url_of("https://cdn.example", "k"), "https://cdn.example/k");
    assert_eq!(public_url_of("", "k"), "/k");
    let dto = analytics_video(
        VideoSummary {
            id: "v".into(),
            name: "n".into(),
            view_count: 5,
            created_at: "2024".into(),
            thumbnail_key: "v/thumbnail.jpg".into(),
        },
        "https://b/",
    );
    assert_eq!(dto.thumbnail_url, "https://b/v/thumbnail.jpg");
    assert_eq!((dto.id.as_str(), dto.name.as_str(), dto.view_count), ("v", "n", 5));
    let entry = video_entry(
        "v".into(),
        "n".into(),
        vec!["t".into()],
        vec!["480p".into()],
        -4,
        "v/thumbnail.jpg",
        "2024".into(),
        "https://b",
        9,
    );
    assert_eq!(entry.player_url, "/player/v");
    assert_eq!(entry.thumbnail_url, "https://b/v/thumbnail.jpg");
    assert_eq!((entry.duration, entry.view_count), (0, 9));
    assert_eq!(entry.tags, vec!["t"]);
}

#[test]
fn companion_files() {
    assert_eq!(requested_track_of("0.ass"), Some(0));
    assert_eq!(requested_track_of("12.srt"), Some(12));
    assert_eq!(requested_track_of("7"), Some(7));
    assert_eq!(requested_track_of("3.tar.gz"), Some(3));
    assert_eq!(requested_track_of(".ass"), None);
    assert_eq!(requested_track_of("x.ass"), None);
    assert_eq!(requested_track_of(""), None);
    assert_eq!(subtitle_content_type_of("ass"), "text/x-ssa");
    assert_eq!(subtitle_content_type_of("ssa"), "text/x-ssa");
    assert_eq!(subtitle_content_type_of("subrip"), "text/plain");
    assert_eq!(subtitle_content_type_of("other"), "text/plain");
    assert_eq!(
        subtitle_engine_asset("jassub-worker.js"),
        Some(("https://cdn.jsdelivr.net/npm/jassub/dist/jassub-worker.js", "application/javascript"))
    );
    assert_eq!(
        subtitle_engine_asset("jassub-worker.wasm"),
        Some(("https://cdn.jsdelivr.net/npm/jassub/dist/jassub-worker.wasm", "application/wasm"))
    );
    assert_eq!(subtitle_engine_asset("../secret"), None);
}

fn chunk_form(id: Option<&str>, has_chunk: bool, index: Option<&str>, total: Option<&str>, name: Option<&str>) -> ChunkForm {
    ChunkForm {
        upload_id: id.map(|s| s.to_string()),
        has_chunk,
        chunk_index: index.map(|s| s.to_string()),
        total_chunks: total.map(|s| s.to_string()),
        file_name: name.map(|s| s.to_string()),
    }
}

#[test]
fn chunk_forms() {
    let f = read_chunk_form(&chunk_form(Some("U"), true, Some("2"), Some("5"), Some("a.mp4"))).unwrap();
    assert_eq!((f.upload_id.as_str(), f.chunk_index, f.total_chunks, f.file_name.as_str()), ("U", 2, 5, "a.mp4"));
    let cases = [
        (chunk_form(None, true, Some("2"), Some("5"), Some("a")), FormError::MissingUploadId, "Missing X-Upload-ID header"),
        (chunk_form(Some("U"), false, Some("2"), Some("5"), Some("a")), FormError::MissingChunk, "Missing chunk data"),
        (chunk_form(Some("U"), true, None, Some("5"), Some("a")), FormError::MissingChunkIndex, "Missing chunk_index"),
        (chunk_form(Some("U"), true, Some("2"), None, Some("a")), FormError::MissingTotalChunks, "Missing total_chunks"),
        (chunk_form(Some("U"), true, Some("2"), Some("5"), None), FormError::MissingFileName, "Missing file_name"),
        (chunk_form(Some("U"), true, Some("-2"), Some("5"), Some("a")), FormError::InvalidChunkIndex, "Invalid chunk_index"),
        (chunk_form(Some("U"), false, Some("x"), Some("y"), None), FormError::InvalidChunkIndex, "Invalid chunk_index"),
        (chunk_form(Some("U"), true, Some("2"), Some("4294967296"), Some("a")), FormError::InvalidTotalChunks, "Invalid total_chunks"),
    ];
    for (form, error, message) in cases {
        let e = read_chunk_form(&form).unwrap_err();
        assert_eq!(e, error);
        assert_eq!(e.message(), message);
        assert_eq!(e.status_code(), 400);
    }
}

#[test]
fn upload_forms() {
    let ok = read_upload_form(&UploadForm {
        file_path: Some("/tmp/x".into()),
        name: Some("clip".into()),
        tags: Some("a, b".into()),
    })
    .unwrap();
    assert_eq!((ok.file_path.as_str(), ok.name.as_str()), ("/tmp/x", "clip"));
    assert_eq!(ok.tags, vec!["a", "b"]);
    let no_tags = read_upload_form(&UploadForm { file_path: Some("/tmp/x".into()), name: Some("c".into()), tags: None }).unwrap();
    assert!(no_tags.tags.is_empty());
    let e = read_upload_form(&UploadForm { file_path: None, name: None, tags: None }).unwrap_err();
    assert_eq!((e, e.message()), (FormError::MissingFile, "missing file field 'file'"));
    let e = read_upload_form(&UploadForm { file_path: Some("p".into()), name: None, tags: None }).unwrap_err();
    assert_eq!((e, e.message()), (FormError::MissingName, "missing field 'name'"));
    assert_eq!(upload_path("/tmp", "id", Some("a.mkv")), "/tmp/id-a.mkv");
    assert_eq!(upload_path("/tmp", "id", None), "/tmp/id-upload.mp4");
}

#[test]
fn a_deletion_needs_ids_and_videos() {
    let none: Vec<String> = vec![];
    let refused = check_delete_request(&none).unwrap_err();
    assert_eq!(refused, DeleteError::NoIds);
    assert_eq!(refused.status_code(), 400);
    assert_eq!(refused.message(), "No video IDs provided");
    assert_eq!(check_delete_request(&vec!["a".to_string()]), Ok(()));
    let missing = deletion_prefixes(&none).unwrap_err();
    assert_eq!(missing, DeleteError::NoneFound);
    assert_eq!(missing.status_code(), 404);
    assert_eq!(missing.message(), "No videos found");
    assert_eq!(
        deletion_prefixes(&vec!["a".to_string(), "b-c".to_string()]).unwrap(),
        vec!["a/", "b-c/"]
    );
}

#[test]
fn a_deletion_answers_with_the_number_of_videos() {
    let answer = deletion_response(3);
    assert_eq!(answer.deleted, 3);
    assert_eq!(answer.message, "Successfully deleted 3 video(s)");
    assert_eq!(deletion_response(0).message, "Successfully deleted 0 video(s)");
    assert_eq!(
        deletion_response(u64::MAX).message,
        "Successfully deleted 18446744073709551615 video(s)"
    );
}

#[test]
fn a_failed_update_is_told_apart_by_its_report() {
    assert_eq!(update_error("Video not found"), UpdateError::NotFound);
    assert_eq!(update_error("error: Video not found: x"), UpdateError::NotFound);
    assert_eq!(update_error("video not found"), UpdateError::Internal);
    assert_eq!(update_error(""), UpdateError::Internal);
    assert_eq!(UpdateError::NotFound.status_code(), 404);
    assert_eq!(UpdateError::NotFound.message(), "Video not found");
    assert_eq!(UpdateError::Internal.status_code(), 500);
    assert_eq!(UpdateError::Internal.message(), "internal server error");
}

#[test]
fn lists_are_stored_as_json_arrays() {
    assert_eq!(akane::catalog::store_list(&vec![]), "[]");
    assert_eq!(akane::catalog::store_list(&vec!["a".to_string()]), "[\"a\"]");
    let items = vec!["480p".to_string(), "say \"hi\"".to_string(), "a\\b,c".to_string()];
    let stored = akane::catalog::store_list(&items);
    assert_eq!(stored, "[\"480p\",\"say \\\"hi\\\"\",\"a\\\\b,c\"]");
    assert_eq!(stored, serde_json::to_string(&items).unwrap());
    assert_eq!(akane::catalog::read_stored_list(&stored), Some(items));
    assert_eq!(akane::catalog::read_stored_list("[]"), Some(vec![]));
    assert_eq!(akane::catalog::read_stored_list("a,b"), None);
    assert_eq!(akane::catalog::read_stored_list("[1]"), None);
}
