//! The playback guard: which requests need a token, where the token and the
//! client's address are found in a request, and what the answer carries.

use crate::clock::now_secs;
use crate::text::{
    before_first, chars_of, concat3, ends_with, lemma_split_nonempty, matches_at, split,
    split_ranges, starts_with, str_ends_with, str_eq, substring, trim, trim_range,
};
use crate::token::{token_valid, verify_token_at};
use vstd::prelude::*;
use vstd::string::*;

verus! {

// ---------------------------------------------------------------------------
// The client's address
// ---------------------------------------------------------------------------

/// The first address of an `X-Forwarded-For` header, without the white space
/// around it.
pub open spec fn first_forwarded(header: Seq<char>) -> Seq<char> {
    trim(before_first(header, ','))
}

/// The address of the client: the first address of `X-Forwarded-For` where there
/// is one, the peer of the connection otherwise.
pub open spec fn resolved_ip(forwarded_for: Option<Seq<char>>, peer: Seq<char>) -> Seq<char> {
    match forwarded_for {
        Some(h) => if first_forwarded(h).len() > 0 {
            first_forwarded(h)
        } else {
            peer
        },
        None => peer,
    }
}

/// Resolves the address of the client. The same resolution serves where a token
/// is issued and where it is verified.
pub fn client_ip(forwarded_for: Option<&str>, peer: &str) -> (ip: String)
    ensures
        ip@ == resolved_ip(
            match forwarded_for {
                Some(h) => Some(h@),
                None => None,
            },
            peer@,
        ),
{
    match forwarded_for {
        Some(h) => {
            let chars = chars_of(h);
            let ranges = split_ranges(&chars, ',');
            proof {
                lemma_split_nonempty(h@, ',');
            }
            let (a, b) = ranges[0];
            let (ta, tb) = trim_range(&chars, a, b);
            if ta < tb {
                substring(h, ta, tb)
            } else {
                String::from_str(peer)
            }
        },
        None => String::from_str(peer),
    }
}

// ---------------------------------------------------------------------------
// The token cookie
// ---------------------------------------------------------------------------

/// The value of the first of the cookies that is named `token`; empty where there
/// is none.
pub open spec fn first_token(cookies: Seq<Seq<char>>) -> Seq<char>
    decreases cookies.len(),
{
    if cookies.len() == 0 {
        Seq::empty()
    } else if starts_with(trim(cookies[0]), "token="@) {
        trim(cookies[0]).skip(6)
    } else {
        first_token(cookies.drop_first())
    }
}

/// The token that a `Cookie` header carries: the value of its first cookie named
/// `token`, the cookies being separated by semicolons.
pub open spec fn cookie_token(header: Seq<char>) -> Seq<char> {
    first_token(split(header, ';'))
}

/// Finds the token in a `Cookie` header.
pub fn token_from_cookies(header: &str) -> (token: String)
    ensures
        token@ == cookie_token(header@),
{
    let chars = chars_of(header);
    let ranges = split_ranges(&chars, ';');
    let name = chars_of("token=");
    proof {
        reveal_strlit("token=");
    }
    let ghost cookies = split(header@, ';');
    let mut i: usize = 0;
    assert(cookies.skip(0) =~= cookies);
    while i < ranges.len()
        invariant
            i <= ranges@.len(),
            chars@ == header@,
            name@ == "token="@,
            name@.len() == 6,
            cookies == split(header@, ';'),
            ranges@.len() == cookies.len(),
            forall|k: int|
                0 <= k < ranges@.len() ==> (#[trigger] ranges@[k]).0 <= ranges@[k].1 <= chars@.len()
                    && chars@.subrange(ranges@[k].0 as int, ranges@[k].1 as int) == cookies[k],
            first_token(cookies) == first_token(cookies.skip(i as int)),
        decreases ranges@.len() - i,
    {
        let (a, b) = ranges[i];
        let (ta, tb) = trim_range(&chars, a, b);
        proof {
            let rest = cookies.skip(i as int);
            assert(rest[0] == cookies[i as int]);
            assert(rest.drop_first() =~= cookies.skip(i as int + 1));
            let c = trim(cookies[i as int]);
            assert(c == chars@.subrange(ta as int, tb as int));
            assert(starts_with(c, name@) <==> (ta + 6 <= tb && chars@.subrange(
                ta as int,
                ta + 6,
            ) == name@)) by {
                if ta + 6 <= tb {
                    assert(c.subrange(0, 6) =~= chars@.subrange(ta as int, ta + 6));
                }
            }
        }
        if tb - ta >= 6 && matches_at(&chars, ta, &name) {
            proof {
                let c = trim(cookies[i as int]);
                assert(c.skip(6) =~= chars@.subrange(ta + 6, tb as int));
            }
            return substring(header, ta + 6, tb);
        }
        i += 1;
    }
    proof {
        assert(cookies.skip(i as int) =~= Seq::<Seq<char>>::empty());
    }
    String::new()
}

// ---------------------------------------------------------------------------
// The guard
// ---------------------------------------------------------------------------

/// Whether a file is served only to the bearer of a token: playlists and
/// segments are; images are not.
pub open spec fn needs_token(file: Seq<char>) -> bool {
    ends_with(file, ".m3u8"@) || ends_with(file, ".ts"@)
}

/// Whether a file is served only to the bearer of a token.
pub fn file_needs_token(file: &str) -> (r: bool)
    ensures
        r == needs_token(file@),
{
    str_ends_with(file, ".m3u8") || str_ends_with(file, ".ts")
}

/// The content type of a file, by its extension.
pub open spec fn content_type(file: Seq<char>) -> Seq<char> {
    if ends_with(file, ".m3u8"@) {
        "application/vnd.apple.mpegurl"@
    } else if ends_with(file, ".ts"@) {
        "video/mp2t"@
    } else if ends_with(file, ".jpg"@) || ends_with(file, ".jpeg"@) {
        "image/jpeg"@
    } else {
        "application/octet-stream"@
    }
}

/// Chooses the content type of a file.
pub fn content_type_of(file: &str) -> (t: &'static str)
    ensures
        t@ == content_type(file@),
{
    if str_ends_with(file, ".m3u8") {
        "application/vnd.apple.mpegurl"
    } else if str_ends_with(file, ".ts") {
        "video/mp2t"
    } else if str_ends_with(file, ".jpg") || str_ends_with(file, ".jpeg") {
        "image/jpeg"
    } else {
        "application/octet-stream"
    }
}

/// The key of a file of a video in the object store.
pub open spec fn hls_key(video_id: Seq<char>, file: Seq<char>) -> Seq<char> {
    video_id + "/"@ + file
}

/// Makes the key of a file of a video in the object store.
pub fn hls_key_of(video_id: &str, file: &str) -> (k: String)
    ensures
        k@ == hls_key(video_id@, file@),
{
    concat3(video_id, "/", file)
}

/// What a request for a file of a video carries, as far as the guard reads it.
#[derive(Debug, Clone)]
pub struct HlsRequest {
    pub video_id: String,
    pub file: String,
    /// The `Cookie` header, if any.
    pub cookies: Option<String>,
    /// The `X-Forwarded-For` header, if any.
    pub forwarded_for: Option<String>,
    /// The address of the peer of the connection.
    pub peer: String,
    /// The `User-Agent` header, if any.
    pub user_agent: Option<String>,
}

/// The characters of an optional string, or none where there is no string.
pub open spec fn chars_or_empty(s: Option<String>) -> Seq<char> {
    match s {
        Some(s) => s@,
        None => Seq::empty(),
    }
}

/// Whether a request passes the guard at `now`: it asks for a file that needs no
/// token, or the token in its cookies admits the video for the client's address
/// and user agent.
pub open spec fn admitted(request: HlsRequest, secret: Seq<char>, now: nat) -> bool {
    needs_token(request.file@) ==> token_valid(
        request.video_id@,
        cookie_token(chars_or_empty(request.cookies)),
        secret,
        resolved_ip(
            match request.forwarded_for {
                Some(h) => Some(h@),
                None => None,
            },
            request.peer@,
        ),
        chars_or_empty(request.user_agent),
        now,
    )
}

/// Why the guard refused a request.
#[derive(Debug, Clone, Copy, PartialEq, Eq, Structural)]
pub enum AccessDenied {
    /// The token is missing, malformed, expired, or bound to other fields.
    InvalidToken,
}

impl AccessDenied {
    /// The HTTP status that answers the refusal.
    pub fn status_code(&self) -> (code: u16)
        ensures
            code == 403,
    {
        403
    }

    /// The text that answers the refusal.
    pub fn message(&self) -> (m: String)
        ensures
            m@ == "Access denied: Invalid or expired token"@,
    {
        String::from_str("Access denied: Invalid or expired token")
    }
}

/// Decides whether a request passes the guard at the time `now`, in seconds since
/// the epoch. A request that passes gets the key of the object to serve.
pub fn authorize_hls_at(request: &HlsRequest, secret: &str, now: u64) -> (r: Result<
    String,
    AccessDenied,
>)
    ensures
        match r {
            Ok(key) => admitted(*request, secret@, now as nat) && key@ == hls_key(
                request.video_id@,
                request.file@,
            ),
            Err(_) => !admitted(*request, secret@, now as nat),
        },
{
    if file_needs_token(request.file.as_str()) {
        let token = match &request.cookies {
            Some(c) => token_from_cookies(c.as_str()),
            None => {
                let t = token_from_cookies("");
                proof {
                    reveal_strlit("");
                    assert(""@ =~= Seq::<char>::empty());
                }
                t
            },
        };
        let ip = match &request.forwarded_for {
            Some(h) => client_ip(Some(h.as_str()), request.peer.as_str()),
            None => client_ip(None, request.peer.as_str()),
        };
        let ok = match &request.user_agent {
            Some(ua) => verify_token_at(
                request.video_id.as_str(),
                token.as_str(),
                secret,
                ip.as_str(),
                ua.as_str(),
                now,
            ),
            None => {
                proof {
                    reveal_strlit("");
                    assert(""@ =~= Seq::<char>::empty());
                }
                verify_token_at(
                    request.video_id.as_str(),
                    token.as_str(),
                    secret,
                    ip.as_str(),
                    "",
                    now,
                )
            },
        };
        if !ok {
            return Err(AccessDenied::InvalidToken);
        }
    }
    Ok(hls_key_of(request.video_id.as_str(), request.file.as_str()))
}

/// What the guard answers to a request at the time `now`: the key of the object
/// to serve where the request passes, and a refusal where it does not.
pub open spec fn guard_answer(
    request: HlsRequest,
    secret: Seq<char>,
    now: nat,
    r: Result<String, AccessDenied>,
) -> bool {
    match r {
        Ok(key) => admitted(request, secret, now) && key@ == hls_key(
            request.video_id@,
            request.file@,
        ),
        Err(_) => !admitted(request, secret, now),
    }
}

/// Decides whether a request passes the guard now.
///
/// The clock is read once; the answer is the one that [`authorize_hls_at`] gives
/// for what it read.
pub fn authorize_hls(request: &HlsRequest, secret: &str) -> (r: Result<String, AccessDenied>)
    ensures
        exists|now: nat| now <= u64::MAX && guard_answer(*request, secret@, now, r),
{
    let now = now_secs();
    let r = authorize_hls_at(request, secret, now);
    assert(guard_answer(*request, secret@, now as nat, r));
    r
}

// ---------------------------------------------------------------------------
// The cookie of the player page
// ---------------------------------------------------------------------------

/// Whether the request came over HTTPS, by its `X-Forwarded-Proto` header.
pub open spec fn is_https(forwarded_proto: Option<Seq<char>>) -> bool {
    forwarded_proto == Some("https"@)
}

/// Whether the request came over HTTPS.
pub fn request_is_https(forwarded_proto: Option<&str>) -> (r: bool)
    ensures
        r == is_https(
            match forwarded_proto {
                Some(p) => Some(p@),
                None => None,
            },
        ),
{
    match forwarded_proto {
        Some(p) => str_eq(p, "https"),
        None => false,
    }
}

/// The `Set-Cookie` value that hands a token to the player: for an hour, not
/// readable by script; sent across sites only over HTTPS.
pub open spec fn token_cookie(token: Seq<char>, https: bool) -> Seq<char> {
    "token="@ + token + "; Path=/; HttpOnly; Max-Age=3600; "@ + if https {
        "SameSite=None; Secure"@
    } else {
        "SameSite=Lax"@
    }
}

/// Makes the `Set-Cookie` value that hands a token to the player.
pub fn token_cookie_of(token: &str, https: bool) -> (c: String)
    ensures
        c@ == token_cookie(token@, https),
{
    let mut c = concat3("token=", token, "; Path=/; HttpOnly; Max-Age=3600; ");
    if https {
        c.append("SameSite=None; Secure");
    } else {
        c.append("SameSite=Lax");
    }
    c
}

} // verus!
