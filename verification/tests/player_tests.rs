use akane::player::{
    authorize_hls_at, client_ip, content_type_of, file_needs_token, hls_key_of, request_is_https,
    token_cookie_of, token_from_cookies, AccessDenied, HlsRequest,
};
use akane::token::generate_token_at;

fn request(file: &str, cookies: Option<String>, xff: Option<&str>, peer: &str, ua: Option<&str>) -> HlsRequest {
    HlsRequest {
        video_id: "v1".to_string(),
        file: file.to_string(),
        cookies,
        forwarded_for: xff.map(|s| s.to_string()),
        peer: peer.to_string(),
        user_agent: ua.map(|s| s.to_string()),
    }
}

#[test]
fn cookie_flags_under_https_scenario() {
    let secure = token_cookie_of("123:abc", request_is_https(Some("https")));
    assert_eq!(secure, "token=123:abc; Path=/; HttpOnly; Max-Age=3600; SameSite=None; Secure");
    assert!(secure.contains("SameSite=None; Secure"));
    let plain = token_cookie_of("123:abc", request_is_https(None));
    assert_eq!(plain, "token=123:abc; Path=/; HttpOnly; Max-Age=3600; SameSite=Lax");
    assert!(plain.contains("SameSite=Lax"));
    assert!(!plain.contains("Secure"));
}

#[test]
fn https_is_told_by_the_forwarded_protocol() {
    assert!(request_is_https(Some("https")));
    assert!(!request_is_https(Some("http")));
    assert!(!request_is_https(Some("HTTPS")));
    assert!(!request_is_https(Some("https ")));
    assert!(!request_is_https(Some("")));
    assert!(!request_is_https(None));
}

#[test]
fn client_address_resolution() {
    assert_eq!(client_ip(None, "9.9.9.9"), "9.9.9.9");
    assert_eq!(client_ip(Some("1.2.3.4"), "9.9.9.9"), "1.2.3.4");
    assert_eq!(client_ip(Some(" 1.2.3.4 , 5.6.7.8"), "9.9.9.9"), "1.2.3.4");
    assert_eq!(client_ip(Some("\t1.2.3.4\n,5.6.7.8,7.7.7.7"), "9.9.9.9"), "1.2.3.4");
    assert_eq!(client_ip(Some(""), "9.9.9.9"), "9.9.9.9");
    assert_eq!(client_ip(Some("   "), "9.9.9.9"), "9.9.9.9");
    assert_eq!(client_ip(Some(" , 5.6.7.8"), "9.9.9.9"), "9.9.9.9");
    assert_eq!(client_ip(Some("a b"), "9.9.9.9"), "a b");
}

#[test]
fn token_is_found_among_the_cookies() {
    assert_eq!(token_from_cookies("token=abc"), "abc");
    assert_eq!(token_from_cookies("a=b; token=12:ff; c=d"), "12:ff");
    assert_eq!(token_from_cookies("a=b;token=x;token=y"), "x");
    assert_eq!(token_from_cookies("  token=x  "), "x");
    assert_eq!(token_from_cookies("token="), "");
    assert_eq!(token_from_cookies("Token=x"), "");
    assert_eq!(token_from_cookies("a=token=x"), "");
    assert_eq!(token_from_cookies("xtoken=1; token =2"), "");
    assert_eq!(token_from_cookies(""), "");
    assert_eq!(token_from_cookies("token=a=b"), "a=b");
}

#[test]
fn which_files_need_a_token() {
    assert!(file_needs_token("index.m3u8"));
    assert!(file_needs_token("720p/index.m3u8"));
    assert!(file_needs_token("720p/segment_001.ts"));
    assert!(file_needs_token(".ts"));
    assert!(!file_needs_token("thumbnail.jpg"));
    assert!(!file_needs_token("a.jpeg"));
    assert!(!file_needs_token("index.m3u8.bak"));
    assert!(!file_needs_token("ts"));
    assert!(!file_needs_token(""));
    assert!(!file_needs_token("x.TS"));
}

#[test]
fn content_types() {
    assert_eq!(content_type_of("index.m3u8"), "application/vnd.apple.mpegurl");
    assert_eq!(content_type_of("480p/segment_000.ts"), "video/mp2t");
    assert_eq!(content_type_of("thumbnail.jpg"), "image/jpeg");
    assert_eq!(content_type_of("thumbnail.jpeg"), "image/jpeg");
    assert_eq!(content_type_of("fonts/a.ttf"), "application/octet-stream");
    assert_eq!(content_type_of(""), "application/octet-stream");
    assert_eq!(hls_key_of("v1", "720p/index.m3u8"), "v1/720p/index.m3u8");
}

#[test]
fn segments_are_served_to_the_bearer_of_a_token() {
    let token = generate_token_at("v1", "secret", "1.2.3.4", "UA/1.0", 1_000);
    let cookie = format!("theme=dark; token={}", token);
    let ok = request("index.m3u8", Some(cookie.clone()), Some("1.2.3.4, 10.0.0.1"), "10.0.0.1", Some("UA/1.0"));
    assert_eq!(authorize_hls_at(&ok, "secret", 1_001).unwrap(), "v1/index.m3u8");
    assert_eq!(authorize_hls_at(&ok, "secret", 4_600).unwrap(), "v1/index.m3u8");
    let denied = authorize_hls_at(&ok, "secret", 4_601).unwrap_err();
    assert_eq!(denied, AccessDenied::InvalidToken);
    assert_eq!(denied.status_code(), 403);
    assert_eq!(denied.message(), "Access denied: Invalid or expired token");
    assert!(authorize_hls_at(&ok, "other", 1_001).is_err());
    let other_ip = request("index.m3u8", Some(cookie.clone()), None, "10.0.0.1", Some("UA/1.0"));
    assert!(authorize_hls_at(&other_ip, "secret", 1_001).is_err());
    let peer_ip = request("a.ts", Some(cookie.clone()), None, "1.2.3.4", Some("UA/1.0"));
    assert_eq!(authorize_hls_at(&peer_ip, "secret", 1_001).unwrap(), "v1/a.ts");
    let other_ua = request("a.ts", Some(cookie.clone()), None, "1.2.3.4", Some("UA/2.0"));
    assert!(authorize_hls_at(&other_ua, "secret", 1_001).is_err());
    let no_ua = request("a.ts", Some(cookie), None, "1.2.3.4", None);
    assert!(authorize_hls_at(&no_ua, "secret", 1_001).is_err());
    let no_cookie = request("a.ts", None, None, "1.2.3.4", Some("UA/1.0"));
    assert!(authorize_hls_at(&no_cookie, "secret", 1_001).is_err());
}

#[test]
fn a_missing_user_agent_is_the_empty_one() {
    let token = generate_token_at("v1", "secret", "1.2.3.4", "", 1_000);
    let r = request("a.ts", Some(format!("token={}", token)), None, "1.2.3.4", None);
    assert!(authorize_hls_at(&r, "secret", 1_001).is_ok());
}

#[test]
fn images_are_served_without_a_token() {
    let r = request("thumbnail.jpg", None, None, "1.2.3.4", None);
    assert_eq!(authorize_hls_at(&r, "secret", 5).unwrap(), "v1/thumbnail.jpg");
}

#[test]
fn a_token_issued_now_passes_the_guard_now() {
    let token = akane::token::generate_token("v1", "secret", "10.0.0.1", "ua");
    let bearer = request(
        "720p/index.m3u8",
        Some(format!("theme=dark; token={token}")),
        Some("10.0.0.1, 10.0.0.2"),
        "127.0.0.1",
        Some("ua"),
    );
    assert_eq!(akane::player::authorize_hls(&bearer, "secret").unwrap(), "v1/720p/index.m3u8");
    assert!(akane::player::authorize_hls(&bearer, "other").is_err());
    let stale = generate_token_at("v1", "secret", "10.0.0.1", "ua", 1);
    let late = request(
        "720p/index.m3u8",
        Some(format!("token={stale}")),
        None,
        "10.0.0.1",
        Some("ua"),
    );
    assert!(akane::player::authorize_hls(&late, "secret").is_err());
}
