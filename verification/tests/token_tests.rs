use akane::token::{constant_time_eq, generate_token, generate_token_at, verify_token, verify_token_at};
use hmac::{Hmac, Mac};
use sha2::Sha256;
use std::time::{SystemTime, UNIX_EPOCH};

fn reference_token(secret: &str, video_id: &str, expiration: u64, ip: &str, ua: &str) -> String {
    let payload = format!("{}\x1F{}\x1F{}\x1F{}", video_id, expiration, ip, ua);
    let mut mac = Hmac::<Sha256>::new_from_slice(secret.as_bytes())
        .expect("HMAC can take key of any size");
    mac.update(payload.as_bytes());
    let signature = hex::encode(mac.finalize().into_bytes());
    format!("{}:{}", expiration, signature)
}

#[test]
fn test_token_verification_success() {
    let secret = "my_secret_key";
    let video_id = "video123";
    let ip = "127.0.0.1";
    let ua = "Mozilla/5.0";

    let token = generate_token(video_id, secret, ip, ua);
    assert!(verify_token(video_id, &token, secret, ip, ua));
}

#[test]
fn test_token_verification_fail_wrong_ip() {
    let secret = "my_secret_key";
    let video_id = "video123";
    let ip = "127.0.0.1";
    let ua = "Mozilla/5.0";

    let token = generate_token(video_id, secret, ip, ua);
    assert!(!verify_token(video_id, &token, secret, "192.168.1.1", ua));
}

#[test]
fn test_token_verification_fail_wrong_ua() {
    let secret = "my_secret_key";
    let video_id = "video123";
    let ip = "127.0.0.1";
    let ua = "Mozilla/5.0";

    let token = generate_token(video_id, secret, ip, ua);
    assert!(!verify_token(video_id, &token, secret, ip, "curl/7.68.0"));
}

#[test]
fn test_token_verification_fail_wrong_secret() {
    let secret = "my_secret_key";
    let video_id = "video123";
    let ip = "127.0.0.1";
    let ua = "Mozilla/5.0";

    let token = generate_token(video_id, secret, ip, ua);
    assert!(!verify_token(video_id, &token, "wrong_secret", ip, ua));
}

#[test]
fn test_token_verification_expired() {
    // Manual token construction with expired time
    let secret = "my_secret_key";
    let video_id = "video123";
    let ip = "127.0.0.1";
    let ua = "Mozilla/5.0";

    let expiration = SystemTime::now()
        .duration_since(UNIX_EPOCH)
        .unwrap()
        .as_secs()
        - 100; // Expired

    let payload = format!("{}\x1F{}\x1F{}\x1F{}", video_id, expiration, ip, ua);
    let mut mac = Hmac::<Sha256>::new_from_slice(secret.as_bytes())
        .expect("HMAC can take key of any size");
    mac.update(payload.as_bytes());
    let signature = hex::encode(mac.finalize().into_bytes());
    let token = format!("{}:{}", expiration, signature);

    assert!(!verify_token(video_id, &token, secret, ip, ua));
}

#[test]
fn token_has_expiry_and_sixty_four_hex_digits() {
    let token = generate_token_at("v1", "s", "1.2.3.4", "UA/1.0", 1_000);
    let parts: Vec<&str> = token.split(':').collect();
    assert_eq!(parts.len(), 2);
    assert_eq!(parts[0], "4600");
    assert_eq!(parts[1].len(), 64);
    assert!(parts[1].chars().all(|c| c.is_ascii_digit() || ('a'..='f').contains(&c)));
}

#[test]
fn token_is_the_hmac_of_the_separated_payload() {
    let token = generate_token_at("v1", "s", "1.2.3.4", "UA/1.0", 1_000);
    assert_eq!(token, reference_token("s", "v1", 4_600, "1.2.3.4", "UA/1.0"));
}

#[test]
fn token_scenario_issue_and_verify() {
    let issued_at = 1_700_000_000u64;
    let token = generate_token_at("v1", "s", "1.2.3.4", "UA/1.0", issued_at);
    let exp = issued_at + 3600;
    assert!(token.starts_with(&format!("{}:", exp)));
    assert!(verify_token_at("v1", &token, "s", "1.2.3.4", "UA/1.0", issued_at));
    assert!(!verify_token_at("v1", &token, "s", "1.2.3.4", "UA/2.0", issued_at));
    assert!(!verify_token_at("v1", &token, "s", "1.2.3.5", "UA/1.0", issued_at));
    assert!(!verify_token_at("v2", &token, "s", "1.2.3.4", "UA/1.0", issued_at));
    assert!(!verify_token_at("v1", &token, "t", "1.2.3.4", "UA/1.0", issued_at));
    assert!(!verify_token_at("v1", &token, "s", "1.2.3.4", "UA/1.0", exp + 1));
}

#[test]
fn token_is_good_in_the_second_of_its_expiry_and_not_after() {
    let now = 5_000u64;
    let token = reference_token("s", "v1", now, "1.2.3.4", "UA/1.0");
    assert!(verify_token_at("v1", &token, "s", "1.2.3.4", "UA/1.0", now));
    assert!(!verify_token_at("v1", &token, "s", "1.2.3.4", "UA/1.0", now + 1));
    assert!(verify_token_at("v1", &token, "s", "1.2.3.4", "UA/1.0", now - 1));
}

#[test]
fn issuing_twice_gives_the_same_token_and_verifying_twice_the_same_answer() {
    let a = generate_token_at("v1", "s", "1.2.3.4", "UA/1.0", 42);
    let b = generate_token_at("v1", "s", "1.2.3.4", "UA/1.0", 42);
    assert_eq!(a, b);
    assert!(verify_token_at("v1", &a, "s", "1.2.3.4", "UA/1.0", 43));
    assert!(verify_token_at("v1", &a, "s", "1.2.3.4", "UA/1.0", 43));
}

#[test]
fn malformed_tokens_are_refused() {
    let good = generate_token_at("v", "s", "i", "u", 10);
    let (exp, sig) = good.split_once(':').unwrap();
    for bad in [
        String::new(),
        ":".to_string(),
        exp.to_string(),
        format!("{}:", exp),
        format!(":{}", sig),
        format!("{}:{}:", exp, sig),
        format!("{}:{}:extra", exp, sig),
        format!("+{}:{}", exp, sig),
        format!(" {}:{}", exp, sig),
        format!("x{}:{}", exp, sig),
        format!("{}:{}", exp, &sig[1..]),
        format!("{}:{}zz", exp, &sig[2..]),
        format!("99999999999999999999999:{}", sig),
        format!("{}:{}", exp, "é".repeat(32)),
    ] {
        assert!(!verify_token_at("v", &bad, "s", "i", "u", 10), "accepted {:?}", bad);
    }
    assert!(verify_token_at("v", &good, "s", "i", "u", 10));
}

#[test]
fn upper_case_signature_and_leading_zeros_are_read() {
    let good = generate_token_at("v", "s", "i", "u", 10);
    let (exp, sig) = good.split_once(':').unwrap();
    let upper = format!("{}:{}", exp, sig.to_uppercase());
    assert!(verify_token_at("v", &upper, "s", "i", "u", 10));
    let padded = format!("000{}:{}", exp, sig);
    assert!(verify_token_at("v", &padded, "s", "i", "u", 10));
}

#[test]
fn token_at_the_end_of_time_saturates() {
    let token = generate_token_at("v", "s", "i", "u", u64::MAX - 5);
    assert!(token.starts_with("18446744073709551615:"));
    assert!(verify_token_at("v", &token, "s", "i", "u", u64::MAX));
}

#[test]
fn fields_with_colons_and_unicode_are_bound() {
    let ua = "Mozilla/5.0 (Windows NT 10.0; Win64; x64) é:ü";
    let token = generate_token_at("vid:1", "sécret", "::1", ua, 100);
    assert_eq!(token, reference_token("sécret", "vid:1", 3_700, "::1", ua));
    assert!(verify_token_at("vid:1", &token, "sécret", "::1", ua, 100));
}

#[test]
fn constant_time_eq_compares_whole_vectors() {
    assert!(constant_time_eq(&vec![], &vec![]));
    assert!(constant_time_eq(&vec![1, 2, 3], &vec![1, 2, 3]));
    assert!(!constant_time_eq(&vec![1, 2, 3], &vec![1, 2, 4]));
    assert!(!constant_time_eq(&vec![0, 2, 3], &vec![1, 2, 3]));
    assert!(!constant_time_eq(&vec![1, 2], &vec![1, 2, 3]));
    assert!(!constant_time_eq(&vec![255], &vec![0]));
}

#[test]
fn an_issued_token_carries_sixty_four_hex_digits() {
    let token = akane::token::generate_token_at("v1", "s", "1.2.3.4", "UA/1.0", 1_000);
    let (expiry, code) = token.split_once(':').unwrap();
    assert_eq!(expiry, "4600");
    assert_eq!(code.len(), 64);
    assert!(code.bytes().all(|b| b.is_ascii_digit() || (b'a'..=b'f').contains(&b)));
    assert!(!code.contains(':'));
    let now = akane::token::generate_token("v1", "s", "1.2.3.4", "UA/1.0");
    assert_eq!(now.split_once(':').unwrap().1.len(), 64);
    assert_eq!(akane::token::MAC_BYTES, 32);
}

#[test]
fn a_token_with_a_code_of_another_length_is_refused() {
    let token = akane::token::generate_token_at("v1", "s", "1.2.3.4", "UA/1.0", 1_000);
    let (expiry, code) = token.split_once(':').unwrap();
    let short = format!("{}:{}", expiry, &code[..62]);
    let long = format!("{}:{}00", expiry, code);
    let empty = format!("{}:", expiry);
    assert!(akane::token::verify_token_at("v1", &token, "s", "1.2.3.4", "UA/1.0", 1_000));
    assert!(!akane::token::verify_token_at("v1", &short, "s", "1.2.3.4", "UA/1.0", 1_000));
    assert!(!akane::token::verify_token_at("v1", &long, "s", "1.2.3.4", "UA/1.0", 1_000));
    assert!(!akane::token::verify_token_at("v1", &empty, "s", "1.2.3.4", "UA/1.0", 1_000));
}
