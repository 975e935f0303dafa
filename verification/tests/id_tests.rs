use akane::chunks::{accept_chunk, chunk_received, finalize_upload, UploadError};
use akane::forms::new_upload_path;
use akane::ids::{new_video_id, upload_id_or_new};
use akane::registry::ProgressRegistry;
use akane::string_map::StringMap;
use akane::types::{ChunkedUpload, FinalizeUploadRequest};

fn is_hyphenated_id(s: &str) -> bool {
    let bytes = s.as_bytes();
    bytes.len() == 36
        && bytes.iter().enumerate().all(|(i, b)| match i {
            8 | 13 | 18 | 23 => *b == b'-',
            _ => b.is_ascii_digit() || (b'a'..=b'f').contains(b),
        })
}

#[test]
fn an_upload_keeps_the_id_that_the_client_sent() {
    assert_eq!(upload_id_or_new(Some("abc")), "abc");
    assert_eq!(upload_id_or_new(Some("")), "");
}

#[test]
fn an_upload_without_an_id_gets_a_random_one() {
    let a = upload_id_or_new(None);
    let b = upload_id_or_new(None);
    assert!(is_hyphenated_id(&a));
    assert!(is_hyphenated_id(&b));
    assert_ne!(a, b);
}

#[test]
fn video_ids_are_random() {
    let a = new_video_id();
    let b = new_video_id();
    assert!(is_hyphenated_id(&a));
    assert_ne!(a, b);
}

#[test]
fn a_new_upload_path_holds_a_random_prefix_and_the_name() {
    let p = new_upload_path("/t", Some("a.mp4"));
    let unique = p.strip_prefix("/t/").unwrap().strip_suffix("-a.mp4").unwrap();
    assert!(is_hyphenated_id(unique));
    let q = new_upload_path("/t", None);
    let unique = q.strip_prefix("/t/").unwrap().strip_suffix("-upload.mp4").unwrap();
    assert!(is_hyphenated_id(unique));
    assert_ne!(new_upload_path("/t", None), q);
}

#[test]
fn finalize_upload_closes_a_complete_upload() {
    let mut uploads: StringMap<ChunkedUpload> = StringMap::new();
    let mut registry = ProgressRegistry::new();
    let request = FinalizeUploadRequest { name: "v".to_string(), tags: Some("a, b".to_string()) };
    assert_eq!(
        finalize_upload(&mut uploads, &mut registry, "U", &request, "/t").unwrap_err(),
        UploadError::UnknownUpload
    );
    accept_chunk(&mut uploads, &mut registry, "U", 0, 2, "a.mp4", "/t", 1).unwrap();
    chunk_received(&mut uploads, &mut registry, "U", 0, 1).unwrap();
    assert_eq!(
        finalize_upload(&mut uploads, &mut registry, "U", &request, "/t").unwrap_err(),
        UploadError::IncompleteUpload
    );
    assert!(uploads.contains_key("U"));
    accept_chunk(&mut uploads, &mut registry, "U", 1, 2, "a.mp4", "/t", 2).unwrap();
    chunk_received(&mut uploads, &mut registry, "U", 1, 2).unwrap();
    let plan = finalize_upload(&mut uploads, &mut registry, "U", &request, "/t").unwrap();
    assert!(!uploads.contains_key("U"));
    assert_eq!(plan.chunk_paths, vec!["/t/chunked-U/chunk_000000", "/t/chunked-U/chunk_000001"]);
    assert_eq!(plan.scratch_dir, "/t/chunked-U");
    assert_eq!(plan.video_name, "v");
    assert_eq!(plan.tags, vec!["a", "b"]);
    let unique = plan.final_path.strip_prefix("/t/").unwrap().strip_suffix("-a.mp4").unwrap();
    assert!(is_hyphenated_id(unique));
    let entry = registry.get("U").unwrap();
    assert_eq!(entry.status, "processing");
    assert_eq!(entry.created_at, 1);
}

#[test]
fn accepted_uploads_are_answered() {
    let plain = akane::forms::upload_accepted("U1".to_string());
    assert_eq!(plain.upload_id, "U1");
    assert_eq!(plain.message, "File uploaded successfully, processing started in background");
    let chunked = akane::forms::finalize_accepted("U2".to_string());
    assert_eq!(chunked.upload_id, "U2");
    assert_eq!(chunked.message, "Chunked upload finalized, processing started in background");
}
