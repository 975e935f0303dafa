//! Playback tokens: `"{expiry}:{hex(HMAC-SHA256(secret, payload))}"`, bound to a
//! video, a client address and a user agent, and valid until `expiry`.

use crate::clock::now_secs;
use crate::text::{
    chars_of, decimal, decimal_string, lemma_decimal_roundtrip, lemma_split_append,
    lemma_split_without_separator, parse_decimal, parse_u64, push_decimal, split, split_ranges,
};
use hmac::{Hmac, Mac};
use sha2::Sha256;
use vstd::prelude::*;
use vstd::string::*;
use vstd::utf8::*;

verus! {

/// How long a token stays valid after it is issued, in seconds.
pub const TOKEN_LIFETIME_SECS: u64 = 3600;

/// The delimiter between the fields of the signed payload: ASCII Unit Separator.
pub open spec fn unit_separator() -> char {
    '\u{1F}'
}

// ---------------------------------------------------------------------------
// Hexadecimal
// ---------------------------------------------------------------------------

/// The lower-case hexadecimal digit of `n`, for `0 <= n < 16`.
pub open spec fn hex_digit(n: int) -> char {
    if n < 10 {
        ((48 + n) as u8) as char
    } else {
        ((87 + n) as u8) as char
    }
}

/// The value of a hexadecimal digit of either case; `None` for any other character.
pub open spec fn hex_value(c: char) -> Option<int> {
    let u = c as u32 as int;
    if 48 <= u <= 57 {
        Some(u - 48)
    } else if 97 <= u <= 102 {
        Some(u - 87)
    } else if 65 <= u <= 70 {
        Some(u - 55)
    } else {
        None
    }
}

/// Two lower-case hexadecimal digits for each byte, the high nibble first.
pub open spec fn hex_encode(bytes: Seq<u8>) -> Seq<char> {
    Seq::new(
        2 * bytes.len(),
        |i: int|
            if i % 2 == 0 {
                hex_digit(bytes[i / 2] as int / 16)
            } else {
                hex_digit(bytes[i / 2] as int % 16)
            },
    )
}

/// Whether every character of `s` is a hexadecimal digit.
pub open spec fn all_hex(s: Seq<char>) -> bool {
    forall|i: int| 0 <= i < s.len() ==> hex_value(#[trigger] s[i]) is Some
}

/// The bytes that an even number of hexadecimal digits write; `None` for an odd
/// length or any other character.
pub open spec fn hex_decode(s: Seq<char>) -> Option<Seq<u8>> {
    if s.len() % 2 == 0 && all_hex(s) {
        Some(
            Seq::new(
                s.len() / 2,
                |i: int| (hex_value(s[2 * i])->0 * 16 + hex_value(s[2 * i + 1])->0) as u8,
            ),
        )
    } else {
        None
    }
}

/// A hexadecimal digit has the value it writes, and is no colon.
pub proof fn lemma_hex_digit(n: int)
    requires
        0 <= n < 16,
    ensures
        hex_value(hex_digit(n)) == Some(n),
        hex_digit(n) != ':',
{
}

/// Decoding what was encoded gives the bytes back, and the encoding holds no colon.
pub proof fn lemma_hex_roundtrip(bytes: Seq<u8>)
    ensures
        hex_decode(hex_encode(bytes)) == Some(bytes),
        !hex_encode(bytes).contains(':'),
{
    let s = hex_encode(bytes);
    assert forall|i: int| 0 <= i < s.len() implies hex_value(#[trigger] s[i]) is Some && s[i]
        != ':' by {
        lemma_hex_digit(bytes[i / 2] as int / 16);
        lemma_hex_digit(bytes[i / 2] as int % 16);
    }
    let d = hex_decode(s)->0;
    assert forall|i: int| 0 <= i < bytes.len() implies d[i] == bytes[i] by {
        lemma_hex_digit(bytes[i] as int / 16);
        lemma_hex_digit(bytes[i] as int % 16);
        assert(s[2 * i] == hex_digit(bytes[i] as int / 16));
        assert(s[2 * i + 1] == hex_digit(bytes[i] as int % 16));
    }
    assert(d =~= bytes);
}

/// The error of `hex::decode`, carried through and never looked into.
#[verifier::external_type_specification]
#[verifier::external_body]
pub struct ExFromHexError(hex::FromHexError);

/// `hex::encode`: each byte becomes two lower-case hexadecimal digits, the high
/// nibble first.
#[verifier::external_body]
fn hex_encode_bytes(bytes: &Vec<u8>) -> (s: String)
    ensures
        s@ == hex_encode(bytes@),
{
    hex::encode(bytes)
}

/// `hex::decode` on the bytes of a string: it succeeds exactly on an even number of
/// hexadecimal digits of either case, and then gives one byte for each pair, the
/// high nibble first.
#[verifier::external_body]
fn hex_decode_str(s: &str) -> (r: Result<Vec<u8>, hex::FromHexError>)
    ensures
        match r {
            Ok(bytes) => hex_decode(s@) == Some(bytes@),
            Err(_) => hex_decode(s@) is None,
        },
{
    hex::decode(s)
}

// ---------------------------------------------------------------------------
// The message authentication code
// ---------------------------------------------------------------------------

/// HMAC-SHA256 of `message` under `key`.
pub uninterp spec fn hmac_sha256(key: Seq<u8>, message: Seq<u8>) -> Seq<u8>;

/// `Hmac::<Sha256>` of the crates `hmac` and `sha2`, keyed with `key` and fed
/// `message` once: the result is what [`hmac_sha256`] names, and it is 32 bytes
/// long. A key of any length is accepted.
#[verifier::external_body]
fn hmac_sha256_bytes(key: &[u8], message: &[u8]) -> (mac: Vec<u8>)
    ensures
        mac@ == hmac_sha256(key@, message@),
        mac@.len() == 32,
{
    let mut mac = Hmac::<Sha256>::new_from_slice(key).expect("HMAC can take key of any size");
    mac.update(message);
    mac.finalize().into_bytes().to_vec()
}

/// Whether two byte strings are equal, decided without leaving the loop at the
/// first difference.
pub fn constant_time_eq(a: &Vec<u8>, b: &Vec<u8>) -> (r: bool)
    ensures
        r == (a@ == b@),
{
    if a.len() != b.len() {
        return false;
    }
    let mut diff: u8 = 0;
    let mut i: usize = 0;
    assert(a@.take(0) =~= b@.take(0));
    while i < a.len()
        invariant
            i <= a.len(),
            a.len() == b.len(),
            diff == 0 <==> a@.take(i as int) == b@.take(i as int),
        decreases a.len() - i,
    {
        let x = a[i];
        let y = b[i];
        let ghost before = diff;
        diff = diff | (x ^ y);
        proof {
            assert((before | (x ^ y)) == 0 <==> (before == 0 && x == y)) by (bit_vector);
            let at = a@.take(i as int + 1);
            let bt = b@.take(i as int + 1);
            assert(at.drop_last() =~= a@.take(i as int));
            assert(bt.drop_last() =~= b@.take(i as int));
            assert(at.last() == x && bt.last() == y);
            if before == 0 && x == y {
                assert(at =~= bt);
            }
        }
        i += 1;
    }
    assert(a@.take(i as int) =~= a@);
    assert(b@.take(i as int) =~= b@);
    diff == 0
}

// ---------------------------------------------------------------------------
// The token
// ---------------------------------------------------------------------------

/// When a token issued at `now` expires: an hour later, or at the end of time.
pub open spec fn expiry_of(now: nat) -> nat {
    if now + 3600 <= u64::MAX {
        now + 3600
    } else {
        u64::MAX as nat
    }
}

/// The signed payload: the four fields, each two separated by the Unit Separator.
pub open spec fn payload(
    video_id: Seq<char>,
    expiry: nat,
    ip: Seq<char>,
    user_agent: Seq<char>,
) -> Seq<char> {
    video_id + seq![unit_separator()] + decimal(expiry) + seq![unit_separator()] + ip + seq![
        unit_separator(),
    ] + user_agent
}

/// The code that binds a token to its four fields under `secret`.
pub open spec fn token_mac(
    secret: Seq<char>,
    video_id: Seq<char>,
    expiry: nat,
    ip: Seq<char>,
    user_agent: Seq<char>,
) -> Seq<u8> {
    hmac_sha256(encode_utf8(secret), encode_utf8(payload(video_id, expiry, ip, user_agent)))
}

/// The text of a token: the expiry in decimal, a colon, the code in hexadecimal.
pub open spec fn token_text(expiry: nat, mac: Seq<u8>) -> Seq<char> {
    decimal(expiry) + seq![':'] + hex_encode(mac)
}

/// The token issued for the four fields at time `now`.
pub open spec fn issued_token(
    video_id: Seq<char>,
    secret: Seq<char>,
    ip: Seq<char>,
    user_agent: Seq<char>,
    now: nat,
) -> Seq<char> {
    token_text(expiry_of(now), token_mac(secret, video_id, expiry_of(now), ip, user_agent))
}

/// The expiry and the code that a token carries, if it has the shape
/// `digits:hex` and its expiry fits in 64 bits.
pub open spec fn parse_token(token: Seq<char>) -> Option<(nat, Seq<u8>)> {
    let parts = split(token, ':');
    if parts.len() != 2 {
        None
    } else {
        match (parse_decimal(parts[0]), hex_decode(parts[1])) {
            (Some(expiry), Some(mac)) => if expiry <= u64::MAX {
                Some((expiry, mac))
            } else {
                None
            },
            _ => None,
        }
    }
}

/// The number of bytes of the code of a token: those of an HMAC-SHA256.
pub const MAC_BYTES: usize = 32;

/// Whether a token carries a code of full length: it parses, and its code has
/// [`MAC_BYTES`] bytes, which are 64 hexadecimal digits.
pub open spec fn carries_full_code(token: Seq<char>) -> bool {
    parse_token(token) matches Some((_, mac)) && mac.len() == MAC_BYTES
}

/// Whether `token` admits the client at time `now`: it parses, it has not expired,
/// and its code is the one computed from the fields presented.
pub open spec fn token_valid(
    video_id: Seq<char>,
    token: Seq<char>,
    secret: Seq<char>,
    ip: Seq<char>,
    user_agent: Seq<char>,
    now: nat,
) -> bool {
    match parse_token(token) {
        Some((expiry, mac)) => now <= expiry && mac == token_mac(
            secret,
            video_id,
            expiry,
            ip,
            user_agent,
        ),
        None => false,
    }
}

fn signed_payload(video_id: &str, expiry: u64, ip: &str, user_agent: &str) -> (p: String)
    ensures
        p@ == payload(video_id@, expiry as nat, ip@, user_agent@),
{
    proof {
        reveal_strlit("\u{1F}");
    }
    let mut p = String::from_str(video_id);
    p.append("\u{1F}");
    push_decimal(&mut p, expiry);
    p.append("\u{1F}");
    p.append(ip);
    p.append("\u{1F}");
    p.append(user_agent);
    assert("\u{1F}"@ =~= seq![unit_separator()]);
    assert(p@ =~= payload(video_id@, expiry as nat, ip@, user_agent@));
    p
}

fn compute_mac(video_id: &str, expiry: u64, secret: &str, ip: &str, user_agent: &str) -> (mac: Vec<
    u8,
>)
    ensures
        mac@ == token_mac(secret@, video_id@, expiry as nat, ip@, user_agent@),
        mac@.len() == 32,
{
    let p = signed_payload(video_id, expiry, ip, user_agent);
    hmac_sha256_bytes(secret.as_bytes(), p.as_str().as_bytes())
}

/// Issues the token for (`video_id`, `ip`, `user_agent`) under `secret`, as of the
/// time `now`, in seconds since the epoch: the expiry in decimal, a colon, and the
/// 64 hexadecimal digits of the code.
pub fn generate_token_at(
    video_id: &str,
    secret: &str,
    ip: &str,
    user_agent: &str,
    now: u64,
) -> (token: String)
    ensures
        token@ == issued_token(video_id@, secret@, ip@, user_agent@, now as nat),
        hex_encode(
            token_mac(secret@, video_id@, expiry_of(now as nat), ip@, user_agent@),
        ).len() == 64,
        carries_full_code(token@),
{
    let expiry: u64 = if now <= u64::MAX - TOKEN_LIFETIME_SECS {
        now + TOKEN_LIFETIME_SECS
    } else {
        u64::MAX
    };
    let mac = compute_mac(video_id, expiry, secret, ip, user_agent);
    let signature = hex_encode_bytes(&mac);
    proof {
        reveal_strlit(":");
    }
    let mut token = decimal_string(expiry);
    token.append(":");
    token.append(signature.as_str());
    assert(":"@ =~= seq![':']);
    assert(token@ =~= token_text(expiry as nat, mac@));
    proof {
        lemma_token_text_parses(expiry as nat, mac@);
    }
    token
}

/// Issues a token that is valid for an hour from now.
///
/// The clock is read once; the token is the one that [`generate_token_at`] issues
/// for what it read.
pub fn generate_token(video_id: &str, secret: &str, ip: &str, user_agent: &str) -> (token: String)
    ensures
        exists|now: nat|
            now <= u64::MAX && token@ == issued_token(video_id@, secret@, ip@, user_agent@, now)
                && hex_encode(
                token_mac(secret@, video_id@, expiry_of(now), ip@, user_agent@),
            ).len() == 64,
        carries_full_code(token@),
{
    let now = now_secs();
    let token = generate_token_at(video_id, secret, ip, user_agent, now);
    assert(token@ == issued_token(video_id@, secret@, ip@, user_agent@, now as nat) && hex_encode(
        token_mac(secret@, video_id@, expiry_of(now as nat), ip@, user_agent@),
    ).len() == 64);
    token
}

/// Decides whether `token` admits (`video_id`, `ip`, `user_agent`) at time `now`,
/// in seconds since the epoch. The codes are compared as raw bytes, so a token
/// whose code is not of full length is refused.
pub fn verify_token_at(
    video_id: &str,
    token: &str,
    secret: &str,
    ip: &str,
    user_agent: &str,
    now: u64,
) -> (ok: bool)
    ensures
        ok == token_valid(video_id@, token@, secret@, ip@, user_agent@, now as nat),
        ok ==> carries_full_code(token@),
{
    let chars = chars_of(token);
    let parts = split_ranges(&chars, ':');
    if parts.len() != 2 {
        return false;
    }
    let (a0, b0) = parts[0];
    let (a1, b1) = parts[1];
    let digits = chars_of(token.substring_char(a0, b0));
    let expiry = match parse_u64(&digits) {
        Some(e) => e,
        None => {
            return false;
        },
    };
    let supplied = match hex_decode_str(token.substring_char(a1, b1)) {
        Ok(bytes) => bytes,
        Err(_) => {
            return false;
        },
    };
    if now > expiry {
        return false;
    }
    let expected = compute_mac(video_id, expiry, secret, ip, user_agent);
    constant_time_eq(&expected, &supplied)
}

/// Decides whether `token` admits (`video_id`, `ip`, `user_agent`) now.
///
/// The clock is read once; the answer is the one that [`verify_token_at`] gives
/// for what it read.
pub fn verify_token(video_id: &str, token: &str, secret: &str, ip: &str, user_agent: &str) -> (ok:
    bool)
    ensures
        exists|now: nat|
            now <= u64::MAX && ok == token_valid(
                video_id@,
                token@,
                secret@,
                ip@,
                user_agent@,
                now,
            ),
        ok ==> carries_full_code(token@),
{
    let now = now_secs();
    let ok = verify_token_at(video_id, token, secret, ip, user_agent, now);
    assert(ok == token_valid(video_id@, token@, secret@, ip@, user_agent@, now as nat));
    ok
}

// ---------------------------------------------------------------------------
// Laws
// ---------------------------------------------------------------------------

/// The text of a token parses back into the expiry and the code it was built from.
pub proof fn lemma_token_text_parses(expiry: nat, mac: Seq<u8>)
    requires
        expiry <= u64::MAX,
    ensures
        parse_token(token_text(expiry, mac)) == Some((expiry, mac)),
{
    let digits = decimal(expiry);
    let hex = hex_encode(mac);
    lemma_decimal_roundtrip(expiry);
    lemma_hex_roundtrip(mac);
    assert(!digits.contains(':')) by {
        if digits.contains(':') {
            let i = choose|i: int| 0 <= i < digits.len() && digits[i] == ':';
            assert(crate::text::is_digit(digits[i]));
        }
    }
    lemma_split_without_separator(digits, ':');
    lemma_split_append(digits, hex, ':');
    assert(split(token_text(expiry, mac), ':') =~= seq![digits, hex]);
}

/// A token admits the fields it was issued for, under the secret it was issued
/// with, at every time up to and including its expiry.
pub proof fn lemma_issued_token_verifies(
    video_id: Seq<char>,
    secret: Seq<char>,
    ip: Seq<char>,
    user_agent: Seq<char>,
    issued_at: nat,
    now: nat,
)
    requires
        now <= expiry_of(issued_at),
    ensures
        token_valid(
            video_id,
            issued_token(video_id, secret, ip, user_agent, issued_at),
            secret,
            ip,
            user_agent,
            now,
        ),
{
    let expiry = expiry_of(issued_at);
    lemma_token_text_parses(expiry, token_mac(secret, video_id, expiry, ip, user_agent));
}

/// Verifying does not use a token up: what was admitted once is admitted again at
/// any later time that is still within the token's life.
pub proof fn lemma_verification_repeats(
    video_id: Seq<char>,
    token: Seq<char>,
    secret: Seq<char>,
    ip: Seq<char>,
    user_agent: Seq<char>,
    first: nat,
    second: nat,
)
    requires
        token_valid(video_id, token, secret, ip, user_agent, first),
        parse_token(token) matches Some((expiry, _)) && second <= expiry,
    ensures
        token_valid(video_id, token, secret, ip, user_agent, second),
{
}

/// No token is admitted after its expiry, whatever the fields presented: the
/// comparison of the clock with the expiry is strict, so a token is still good in
/// the second of its expiry and refused from the next one on.
pub proof fn lemma_expired_token_rejected(
    video_id: Seq<char>,
    token: Seq<char>,
    secret: Seq<char>,
    ip: Seq<char>,
    user_agent: Seq<char>,
    now: nat,
)
    requires
        parse_token(token) matches Some((expiry, _)) && now > expiry,
    ensures
        !token_valid(video_id, token, secret, ip, user_agent, now),
{
}

/// A token issued at `issued_at` is refused at every time after its expiry.
pub proof fn lemma_issued_token_expires(
    video_id: Seq<char>,
    secret: Seq<char>,
    ip: Seq<char>,
    user_agent: Seq<char>,
    issued_at: nat,
    now: nat,
)
    requires
        now > expiry_of(issued_at),
    ensures
        !token_valid(
            video_id,
            issued_token(video_id, secret, ip, user_agent, issued_at),
            secret,
            ip,
            user_agent,
            now,
        ),
{
    let expiry = expiry_of(issued_at);
    lemma_token_text_parses(expiry, token_mac(secret, video_id, expiry, ip, user_agent));
}

/// A token issued for one set of fields admits another set only if both have the
/// same code under their secrets: a request that differs in the video, the
/// address, the user agent or the secret is refused unless HMAC-SHA256 collides
/// on the two payloads.
pub proof fn lemma_token_bound_to_fields(
    video_id: Seq<char>,
    secret: Seq<char>,
    ip: Seq<char>,
    user_agent: Seq<char>,
    issued_at: nat,
    other_video_id: Seq<char>,
    other_secret: Seq<char>,
    other_ip: Seq<char>,
    other_user_agent: Seq<char>,
    now: nat,
)
    requires
        token_mac(other_secret, other_video_id, expiry_of(issued_at), other_ip, other_user_agent)
            != token_mac(secret, video_id, expiry_of(issued_at), ip, user_agent),
    ensures
        !token_valid(
            other_video_id,
            issued_token(video_id, secret, ip, user_agent, issued_at),
            other_secret,
            other_ip,
            other_user_agent,
            now,
        ),
{
    let expiry = expiry_of(issued_at);
    lemma_token_text_parses(expiry, token_mac(secret, video_id, expiry, ip, user_agent));
}

/// A string without the separator, the separator, and a rest: the string and the
/// rest can be read off the whole.
proof fn lemma_head_is_determined(
    a: Seq<char>,
    rest_a: Seq<char>,
    b: Seq<char>,
    rest_b: Seq<char>,
    sep: char,
)
    requires
        !a.contains(sep),
        !b.contains(sep),
        a + seq![sep] + rest_a == b + seq![sep] + rest_b,
    ensures
        a == b,
        rest_a == rest_b,
{
    let whole_a = a + seq![sep] + rest_a;
    let whole_b = b + seq![sep] + rest_b;
    if a.len() < b.len() {
        assert(whole_a[a.len() as int] == sep);
        assert(whole_b[a.len() as int] == b[a.len() as int]);
        assert(b.contains(b[a.len() as int]));
    }
    if b.len() < a.len() {
        assert(whole_b[b.len() as int] == sep);
        assert(whole_a[b.len() as int] == a[b.len() as int]);
        assert(a.contains(a[b.len() as int]));
    }
    assert(a =~= whole_a.take(a.len() as int));
    assert(b =~= whole_b.take(b.len() as int));
    assert(rest_a =~= whole_a.skip(a.len() as int + 1));
    assert(rest_b =~= whole_b.skip(b.len() as int + 1));
}

/// The payload tells its four fields apart: where neither the video id nor the
/// address holds the Unit Separator, two payloads are equal only if all four
/// fields are. So a token bound to other fields is admitted only if HMAC-SHA256
/// gives two different messages the same code.
pub proof fn lemma_payload_injective(
    video_id: Seq<char>,
    expiry: nat,
    ip: Seq<char>,
    user_agent: Seq<char>,
    other_video_id: Seq<char>,
    other_expiry: nat,
    other_ip: Seq<char>,
    other_user_agent: Seq<char>,
)
    requires
        !video_id.contains(unit_separator()),
        !other_video_id.contains(unit_separator()),
        !ip.contains(unit_separator()),
        !other_ip.contains(unit_separator()),
        payload(video_id, expiry, ip, user_agent) == payload(
            other_video_id,
            other_expiry,
            other_ip,
            other_user_agent,
        ),
    ensures
        video_id == other_video_id,
        expiry == other_expiry,
        ip == other_ip,
        user_agent == other_user_agent,
{
    let sep = unit_separator();
    let d = decimal(expiry);
    let od = decimal(other_expiry);
    lemma_decimal_roundtrip(expiry);
    lemma_decimal_roundtrip(other_expiry);
    assert(!d.contains(sep)) by {
        if d.contains(sep) {
            let i = choose|i: int| 0 <= i < d.len() && d[i] == sep;
            assert(crate::text::is_digit(d[i]));
        }
    }
    assert(!od.contains(sep)) by {
        if od.contains(sep) {
            let i = choose|i: int| 0 <= i < od.len() && od[i] == sep;
            assert(crate::text::is_digit(od[i]));
        }
    }
    let tail2 = ip + seq![sep] + user_agent;
    let otail2 = other_ip + seq![sep] + other_user_agent;
    let tail1 = d + seq![sep] + tail2;
    let otail1 = od + seq![sep] + otail2;
    assert(payload(video_id, expiry, ip, user_agent) =~= video_id + seq![sep] + tail1);
    assert(payload(other_video_id, other_expiry, other_ip, other_user_agent) =~= other_video_id
        + seq![sep] + otail1);
    lemma_head_is_determined(video_id, tail1, other_video_id, otail1, sep);
    lemma_head_is_determined(d, tail2, od, otail2, sep);
    lemma_head_is_determined(ip, user_agent, other_ip, other_user_agent, sep);
    crate::text::lemma_decimal_injective(expiry, other_expiry);
}

} // verus!
