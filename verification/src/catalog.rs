//! The catalogue of videos as the administrator lists it: pages, search patterns
//! and the addresses that a listing carries.

use crate::json::{
    json_quote, json_string_array, json_string_literal, quoted, read_json_string_array,
};
use crate::pipeline::{key_prefix, key_prefix_of, player_url, player_url_of};
use crate::script::{join, join_strings};
use crate::text::{
    before_first, chars_of, concat3, contains_str, decimal, decimal_string,
    lemma_split_nonempty, lowercase, parse_u32, parse_unsigned, split_ranges, str_contains,
    str_eq, strings_view, strip_trailing, strip_trailing_len, sub_chars, substring,
    to_lowercase,
};
use crate::types::{
    AnalyticsVideoDto, DeleteVideosResponse, VideoDto, VideoListResponse, VideoQuery,
    VideoSummary,
};
use vstd::prelude::*;
use vstd::string::*;

verus! {

// ---------------------------------------------------------------------------
// Pages
// ---------------------------------------------------------------------------

/// How many videos a page holds where the client does not say.
pub const DEFAULT_PAGE_SIZE: u32 = 20;

/// The most videos that a page holds.
pub const MAX_PAGE_SIZE: u32 = 100;

/// The page that a query asks for: the first where it names none or page 0.
pub open spec fn page_of(page: Option<u32>) -> u32 {
    match page {
        Some(p) => if p >= 1 {
            p
        } else {
            1
        },
        None => 1,
    }
}

/// The size of the pages of a query: between 1 and 100, and 20 where it names
/// none.
pub open spec fn page_size_of(page_size: Option<u32>) -> u32 {
    match page_size {
        Some(s) => if s < 1 {
            1
        } else if s > MAX_PAGE_SIZE {
            MAX_PAGE_SIZE
        } else {
            s
        },
        None => DEFAULT_PAGE_SIZE,
    }
}

/// Brings the page and the page size of a query into their ranges.
pub fn normalize_query(query: &VideoQuery) -> (r: (u32, u32))
    ensures
        r.0 == page_of(query.page),
        r.1 == page_size_of(query.page_size),
        r.0 >= 1,
        1 <= r.1 <= MAX_PAGE_SIZE,
{
    let page = match query.page {
        Some(p) => if p >= 1 {
            p
        } else {
            1
        },
        None => 1,
    };
    let page_size = match query.page_size {
        Some(s) => if s < 1 {
            1
        } else if s > MAX_PAGE_SIZE {
            MAX_PAGE_SIZE
        } else {
            s
        },
        None => DEFAULT_PAGE_SIZE,
    };
    (page, page_size)
}

/// How many videos stand before the first of a page.
pub fn page_offset(page: u32, page_size: u32) -> (offset: u64)
    requires
        page >= 1,
    ensures
        offset == (page - 1) * page_size,
{
    assert((page - 1) * page_size <= u32::MAX * u32::MAX) by (nonlinear_arith)
        requires
            1 <= page <= u32::MAX,
            0 <= page_size <= u32::MAX,
    ;
    (page as u64 - 1) * (page_size as u64)
}

/// Wraps the videos of a page into the answer: with the number of all videos, and
/// whether a page comes before and after this one.
pub fn page_response(items: Vec<VideoDto>, page: u32, page_size: u32, total: i64) -> (r:
    VideoListResponse)
    ensures
        r.items == items,
        r.page == page,
        r.page_size == page_size,
        r.total == if total < 0 {
            0
        } else {
            total as u64
        },
        r.has_prev == (page > 1),
        r.has_next == (page * page_size < r.total),
{
    let total: u64 = if total < 0 {
        0
    } else {
        total as u64
    };
    assert(page * page_size <= u32::MAX * u32::MAX) by (nonlinear_arith)
        requires
            0 <= page <= u32::MAX,
            0 <= page_size <= u32::MAX,
    ;
    let seen: u64 = (page as u64) * (page_size as u64);
    VideoListResponse {
        items,
        page,
        page_size,
        total,
        has_next: seen < total,
        has_prev: page > 1,
    }
}

// ---------------------------------------------------------------------------
// Search patterns
// ---------------------------------------------------------------------------

/// `s` without its double quotes.
pub open spec fn unquoted(s: Seq<char>) -> Seq<char> {
    s.filter(|c: char| c != '"')
}

/// The pattern that finds the videos whose name begins with `name`, in any case.
pub open spec fn name_pattern(name: Seq<char>) -> Seq<char> {
    "name:\""@ + unquoted(lowercase(name)) + "\"*"@
}

/// The pattern that finds the videos that carry `tag`.
pub open spec fn tag_pattern(tag: Seq<char>) -> Seq<char> {
    "tags:\""@ + unquoted(tag) + "\""@
}

/// The full-text pattern of a query: none where it filters by nothing.
pub open spec fn search_pattern(name: Option<Seq<char>>, tag: Option<Seq<char>>) -> Option<
    Seq<char>,
> {
    match (name, tag) {
        (None, None) => None,
        (Some(n), None) => Some(name_pattern(n)),
        (None, Some(t)) => Some(tag_pattern(t)),
        (Some(n), Some(t)) => Some(name_pattern(n) + " AND "@ + tag_pattern(t)),
    }
}

/// Appends `s` without its double quotes.
pub fn push_unquoted(out: &mut String, s: &str)
    ensures
        final(out)@ == old(out)@ + unquoted(s@),
{
    let chars = chars_of(s);
    let ghost keep = |c: char| c != '"';
    let mut i: usize = 0;
    proof {
        reveal(Seq::filter);
        assert(s@.take(0) =~= Seq::<char>::empty());
        assert(out@ =~= old(out)@ + s@.take(0).filter(keep));
    }
    while i < chars.len()
        invariant
            i <= chars@.len(),
            chars@ == s@,
            keep == (|c: char| c != '"'),
            out@ == old(out)@ + s@.take(i as int).filter(keep),
        decreases chars@.len() - i,
    {
        proof {
            reveal(Seq::filter);
            let next = s@.take(i as int + 1);
            assert(next.drop_last() =~= s@.take(i as int));
            assert(next.last() == s@[i as int]);
        }
        if chars[i] != '"' {
            let ghost before = out@;
            out.append(s.substring_char(i, i + 1));
            assert(s@.subrange(i as int, i + 1) =~= seq![s@[i as int]]);
            assert(out@ =~= old(out)@ + s@.take(i as int).filter(keep).push(s@[i as int]));
        }
        i += 1;
    }
    assert(s@.take(i as int) =~= s@);
}

/// Given the name of a query in lower case, writes the full-text pattern of the
/// query.
pub fn search_pattern_from(lowered_name: Option<&str>, tag: Option<&str>) -> (p: Option<String>)
    ensures
        match p {
            Some(p) => Some(p@),
            None => None,
        } == match (lowered_name, tag) {
            (None, None) => None,
            (Some(n), None) => Some("name:\""@ + unquoted(n@) + "\"*"@),
            (None, Some(t)) => Some(tag_pattern(t@)),
            (Some(n), Some(t)) => Some(
                "name:\""@ + unquoted(n@) + "\"*"@ + " AND "@ + tag_pattern(t@),
            ),
        },
{
    match (lowered_name, tag) {
        (None, None) => None,
        (Some(n), None) => {
            let mut p = String::from_str("name:\"");
            push_unquoted(&mut p, n);
            p.append("\"*");
            Some(p)
        },
        (None, Some(t)) => {
            let mut p = String::from_str("tags:\"");
            push_unquoted(&mut p, t);
            p.append("\"");
            Some(p)
        },
        (Some(n), Some(t)) => {
            let mut p = String::from_str("name:\"");
            push_unquoted(&mut p, n);
            p.append("\"*");
            p.append(" AND ");
            p.append("tags:\"");
            push_unquoted(&mut p, t);
            p.append("\"");
            assert(p@ =~= "name:\""@ + unquoted(n@) + "\"*"@ + " AND "@ + tag_pattern(t@));
            Some(p)
        },
    }
}

/// Writes the full-text pattern of a query.
pub fn search_pattern_of(query: &VideoQuery) -> (p: Option<String>)
    ensures
        match p {
            Some(p) => Some(p@),
            None => None,
        } == search_pattern(
            match query.name {
                Some(n) => Some(n@),
                None => None,
            },
            match query.tag {
                Some(t) => Some(t@),
                None => None,
            },
        ),
{
    let lowered = match &query.name {
        Some(n) => Some(to_lowercase(n.as_str())),
        None => None,
    };
    let p = match (&lowered, &query.tag) {
        (None, None) => search_pattern_from(None, None),
        (Some(n), None) => search_pattern_from(Some(n.as_str()), None),
        (None, Some(t)) => search_pattern_from(None, Some(t.as_str())),
        (Some(n), Some(t)) => search_pattern_from(Some(n.as_str()), Some(t.as_str())),
    };
    p
}

// ---------------------------------------------------------------------------
// Addresses
// ---------------------------------------------------------------------------

/// The public address of an object: the base without the slashes at its end, a
/// slash, and the key.
pub open spec fn public_url(base: Seq<char>, key: Seq<char>) -> Seq<char> {
    strip_trailing(base, '/') + "/"@ + key
}

/// Makes the public address of an object.
pub fn public_url_of(base: &str, key: &str) -> (u: String)
    ensures
        u@ == public_url(base@, key@),
{
    let chars = chars_of(base);
    let n = strip_trailing_len(&chars, '/');
    let mut u = substring(base, 0, n);
    assert(base@.subrange(0, n as int) =~= base@.take(n as int));
    u.append("/");
    u.append(key);
    u
}

/// Makes the entry of a video in the analytics listing.
pub fn analytics_video(summary: VideoSummary, base: &str) -> (dto: AnalyticsVideoDto)
    ensures
        dto.id == summary.id,
        dto.name == summary.name,
        dto.view_count == summary.view_count,
        dto.created_at == summary.created_at,
        dto.thumbnail_url@ == public_url(base@, summary.thumbnail_key@),
{
    let thumbnail_url = public_url_of(base, summary.thumbnail_key.as_str());
    AnalyticsVideoDto {
        id: summary.id,
        name: summary.name,
        view_count: summary.view_count,
        created_at: summary.created_at,
        thumbnail_url,
    }
}

/// The duration of a video as a listing shows it: a negative one is zero, and one
/// beyond 32 bits is the largest that fits.
pub open spec fn shown_duration(duration: i64) -> u32 {
    if duration < 0 {
        0
    } else if duration > u32::MAX {
        u32::MAX
    } else {
        duration as u32
    }
}

/// Makes the entry of a video in a listing, from its row in the store.
pub fn video_entry(
    id: String,
    name: String,
    tags: Vec<String>,
    available_resolutions: Vec<String>,
    duration: i64,
    thumbnail_key: &str,
    created_at: String,
    base: &str,
    view_count: i64,
) -> (dto: VideoDto)
    ensures
        dto.id == id,
        dto.name == name,
        dto.tags == tags,
        dto.available_resolutions == available_resolutions,
        dto.duration == shown_duration(duration),
        dto.thumbnail_url@ == public_url(base@, thumbnail_key@),
        dto.player_url@ == player_url(id@),
        dto.view_count == view_count,
        dto.created_at == created_at,
{
    let player_url = player_url_of(id.as_str());
    let duration: u32 = if duration < 0 {
        0
    } else if duration > u32::MAX as i64 {
        u32::MAX
    } else {
        duration as u32
    };
    VideoDto {
        id,
        name,
        tags,
        available_resolutions,
        duration,
        thumbnail_url: public_url_of(base, thumbnail_key),
        player_url,
        view_count,
        created_at,
    }
}

// ---------------------------------------------------------------------------
// Companion files
// ---------------------------------------------------------------------------

/// The index of the subtitle track that a file name such as `1.srt` asks for: the
/// number before its first dot.
pub open spec fn requested_track(file_name: Seq<char>) -> Option<u32> {
    match parse_unsigned(before_first(file_name, '.')) {
        Some(n) => if n <= u32::MAX {
            Some(n as u32)
        } else {
            None
        },
        None => None,
    }
}

/// Reads the index of the subtitle track out of the file name of a request.
pub fn requested_track_of(file_name: &str) -> (r: Option<u32>)
    ensures
        r == requested_track(file_name@),
{
    let chars = chars_of(file_name);
    let ranges = split_ranges(&chars, '.');
    proof {
        lemma_split_nonempty(file_name@, '.');
    }
    let (a, b) = ranges[0];
    parse_u32(&sub_chars(&chars, a, b))
}

/// The content type of a subtitle file, by the codec of its track.
pub open spec fn subtitle_content_type(codec: Seq<char>) -> Seq<char> {
    if codec == "ass"@ || codec == "ssa"@ {
        "text/x-ssa"@
    } else {
        "text/plain"@
    }
}

/// Chooses the content type of a subtitle file.
pub fn subtitle_content_type_of(codec: &str) -> (t: &'static str)
    ensures
        t@ == subtitle_content_type(codec@),
{
    if str_eq(codec, "ass") || str_eq(codec, "ssa") {
        "text/x-ssa"
    } else {
        "text/plain"
    }
}

/// Where a file of the subtitle engine is fetched from, and its content type; no
/// other file is handed out.
pub fn subtitle_engine_asset(file_name: &str) -> (r: Option<(&'static str, &'static str)>)
    ensures
        match r {
            Some((url, content_type)) => if file_name@ == "jassub-worker.js"@ {
                url@ == "https://cdn.jsdelivr.net/npm/jassub/dist/jassub-worker.js"@
                    && content_type@ == "application/javascript"@
            } else {
                file_name@ == "jassub-worker.wasm"@ && url@
                    == "https://cdn.jsdelivr.net/npm/jassub/dist/jassub-worker.wasm"@
                    && content_type@ == "application/wasm"@
            },
            None => file_name@ != "jassub-worker.js"@ && file_name@ != "jassub-worker.wasm"@,
        },
{
    if str_eq(file_name, "jassub-worker.js") {
        Some(
            ("https://cdn.jsdelivr.net/npm/jassub/dist/jassub-worker.js", "application/javascript"),
        )
    } else if str_eq(file_name, "jassub-worker.wasm") {
        Some(("https://cdn.jsdelivr.net/npm/jassub/dist/jassub-worker.wasm", "application/wasm"))
    } else {
        None
    }
}

// ---------------------------------------------------------------------------
// Deleting and renaming
// ---------------------------------------------------------------------------

/// Why a request to delete videos was refused.
#[derive(Debug, Clone, Copy, PartialEq, Eq, Structural)]
pub enum DeleteError {
    /// The request names no video.
    NoIds,
    /// None of the videos that the request names is in the catalogue.
    NoneFound,
}

impl DeleteError {
    /// The HTTP status that answers the error.
    pub fn status_code(&self) -> (code: u16)
        ensures
            code == match *self {
                DeleteError::NoIds => 400u16,
                DeleteError::NoneFound => 404u16,
            },
    {
        match self {
            DeleteError::NoIds => 400,
            DeleteError::NoneFound => 404,
        }
    }

    /// The text that answers the error.
    pub fn message(&self) -> (m: String)
        ensures
            m@ == match *self {
                DeleteError::NoIds => "No video IDs provided"@,
                DeleteError::NoneFound => "No videos found"@,
            },
    {
        match self {
            DeleteError::NoIds => String::from_str("No video IDs provided"),
            DeleteError::NoneFound => String::from_str("No videos found"),
        }
    }
}

/// Refuses a request to delete that names no video.
pub fn check_delete_request(ids: &Vec<String>) -> (r: Result<(), DeleteError>)
    ensures
        r == if ids@.len() == 0 {
            Err::<(), DeleteError>(DeleteError::NoIds)
        } else {
            Ok::<(), DeleteError>(())
        },
{
    if ids.len() == 0 {
        Err(DeleteError::NoIds)
    } else {
        Ok(())
    }
}

/// The key prefixes under which the objects of the videos `existing` lie, one for
/// each video and in their order: the objects to delete from the store. Where no
/// video of the request exists, the request is refused.
pub fn deletion_prefixes(existing: &Vec<String>) -> (r: Result<Vec<String>, DeleteError>)
    ensures
        match r {
            Ok(prefixes) => {
                &&& existing@.len() > 0
                &&& prefixes@.len() == existing@.len()
                &&& forall|i: int|
                    0 <= i < existing@.len() ==> (#[trigger] prefixes@[i])@ == key_prefix(
                        existing@[i]@,
                    )
            },
            Err(e) => e == DeleteError::NoneFound && existing@.len() == 0,
        },
{
    if existing.len() == 0 {
        return Err(DeleteError::NoneFound);
    }
    let mut prefixes: Vec<String> = Vec::new();
    let mut i: usize = 0;
    while i < existing.len()
        invariant
            i <= existing@.len(),
            prefixes@.len() == i,
            forall|k: int| 0 <= k < i ==> (#[trigger] prefixes@[k])@ == key_prefix(existing@[k]@),
        decreases existing@.len() - i,
    {
        prefixes.push(key_prefix_of(existing[i].as_str()));
        i += 1;
    }
    Ok(prefixes)
}

/// What the answer to a deletion says of `deleted` videos.
pub open spec fn deletion_message(deleted: u64) -> Seq<char> {
    "Successfully deleted "@ + decimal(deleted as nat) + " video(s)"@
}

/// The answer to a deletion that removed `deleted` videos.
pub fn deletion_response(deleted: u64) -> (r: DeleteVideosResponse)
    ensures
        r.deleted == deleted,
        r.message@ == deletion_message(deleted),
{
    let number = decimal_string(deleted);
    DeleteVideosResponse {
        deleted,
        message: concat3("Successfully deleted ", number.as_str(), " video(s)"),
    }
}

/// Why a video could not be renamed or tagged anew.
#[derive(Debug, Clone, Copy, PartialEq, Eq, Structural)]
pub enum UpdateError {
    /// The catalogue has no video under the id.
    NotFound,
    /// The catalogue failed otherwise.
    Internal,
}

impl UpdateError {
    /// The HTTP status that answers the error.
    pub fn status_code(&self) -> (code: u16)
        ensures
            code == match *self {
                UpdateError::NotFound => 404u16,
                UpdateError::Internal => 500u16,
            },
    {
        match self {
            UpdateError::NotFound => 404,
            UpdateError::Internal => 500,
        }
    }

    /// The text that answers the error.
    pub fn message(&self) -> (m: String)
        ensures
            m@ == match *self {
                UpdateError::NotFound => "Video not found"@,
                UpdateError::Internal => "internal server error"@,
            },
    {
        match self {
            UpdateError::NotFound => String::from_str("Video not found"),
            UpdateError::Internal => String::from_str("internal server error"),
        }
    }
}

/// Reads the catalogue's report of a failed update: the video is missing where
/// the report says `Video not found`, and the catalogue failed otherwise.
pub fn update_error(report: &str) -> (e: UpdateError)
    ensures
        e == if contains_str(report@, "Video not found"@) {
            UpdateError::NotFound
        } else {
            UpdateError::Internal
        },
{
    if str_contains(report, "Video not found") {
        UpdateError::NotFound
    } else {
        UpdateError::Internal
    }
}

// ---------------------------------------------------------------------------
// Lists in a row of the catalogue
// ---------------------------------------------------------------------------

/// The text under which a list of strings stands in a row of the catalogue: a
/// JSON array of string literals, without white space.
pub open spec fn stored_list(items: Seq<Seq<char>>) -> Seq<char> {
    "["@ + join(items.map_values(|s: Seq<char>| quoted(json_string_literal(s))), ","@) + "]"@
}

/// Writes a list of strings for a row of the catalogue.
pub fn store_list(items: &Vec<String>) -> (r: String)
    ensures
        r@ == stored_list(strings_view(items@)),
{
    let mut literals: Vec<String> = Vec::new();
    let ghost written = strings_view(items@).map_values(
        |s: Seq<char>| quoted(json_string_literal(s)),
    );
    let mut i: usize = 0;
    while i < items.len()
        invariant
            i <= items@.len(),
            written == strings_view(items@).map_values(
                |s: Seq<char>| quoted(json_string_literal(s)),
            ),
            strings_view(literals@) == written.take(i as int),
        decreases items@.len() - i,
    {
        let ghost before = literals@;
        let literal = json_quote(items[i].as_str());
        literals.push(literal);
        assert(strings_view(literals@) =~= strings_view(before).push(literal@));
        assert(written.take(i as int + 1) =~= written.take(i as int).push(written[i as int]));
        i += 1;
    }
    assert(written.take(i as int) =~= written);
    let joined = join_strings(&literals, ",");
    concat3("[", joined.as_str(), "]")
}

/// Reads a list of strings from a row of the catalogue, if the text is a JSON
/// array of strings.
pub fn read_stored_list(text: &str) -> (r: Option<Vec<String>>)
    ensures
        match r {
            Some(items) => json_string_array(text@) == Some(strings_view(items@)),
            None => json_string_array(text@) is None,
        },
{
    match read_json_string_array(text) {
        Ok(items) => Some(items),
        Err(_) => None,
    }
}

} // verus!
