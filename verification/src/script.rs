//! The data that the player page hands to its script: the subtitle tracks, the
//! fonts and the chapters of a video, each written as a literal. Every string
//! that goes into the script goes through the JSON encoder, so that no title or
//! name can end the literal it stands in.

use crate::json::{json_quote, json_string_literal, quoted};
use crate::pipeline::{subtitle_format, subtitle_format_of};
use crate::probe::{span_ok, Chapter, ChapterView};
use crate::text::{
    concat2, decimal, padded_decimal, push_decimal, push_padded_decimal, strings_view,
};
use crate::types::{Attachment, SubtitleTrack};
use vstd::prelude::*;
use vstd::string::*;

verus! {

// ---------------------------------------------------------------------------
// Joining
// ---------------------------------------------------------------------------

/// The parts written one after the other, each two separated by `sep`.
pub open spec fn join(parts: Seq<Seq<char>>, sep: Seq<char>) -> Seq<char>
    decreases parts.len(),
{
    if parts.len() == 0 {
        Seq::empty()
    } else if parts.len() == 1 {
        parts[0]
    } else {
        join(parts.drop_last(), sep) + sep + parts.last()
    }
}

/// Joins strings by a separator.
pub fn join_strings(parts: &Vec<String>, sep: &str) -> (r: String)
    ensures
        r@ == join(strings_view(parts@), sep@),
{
    let mut r = String::new();
    let ghost all = strings_view(parts@);
    let mut i: usize = 0;
    assert(all.take(0) =~= Seq::<Seq<char>>::empty());
    while i < parts.len()
        invariant
            i <= parts@.len(),
            all == strings_view(parts@),
            r@ == join(all.take(i as int), sep@),
        decreases parts@.len() - i,
    {
        let ghost before = r@;
        if i > 0 {
            r.append(sep);
        }
        r.append(parts[i].as_str());
        proof {
            let next = all.take(i as int + 1);
            assert(next.drop_last() =~= all.take(i as int));
            assert(next.last() == parts@[i as int]@);
            if i == 0 {
                assert(r@ =~= next[0]);
            } else {
                assert(r@ =~= before + sep@ + next.last());
            }
        }
        i += 1;
    }
    assert(all.take(i as int) =~= all);
    r
}

// ---------------------------------------------------------------------------
// Subtitle tracks
// ---------------------------------------------------------------------------

/// The name under which a track is offered: its title, else its language, else
/// `Track` and its index.
pub open spec fn track_name(track: SubtitleTrack) -> Seq<char> {
    match track.title {
        Some(t) => t@,
        None => match track.language {
            Some(l) => l@,
            None => "Track "@ + decimal(track.track_index as nat),
        },
    }
}

/// The address from which the player fetches a track.
pub open spec fn subtitle_url(video_id: Seq<char>, track: SubtitleTrack) -> Seq<char> {
    "/api/videos/"@ + video_id + "/subtitles/"@ + decimal(track.track_index as nat) + "."@
        + subtitle_format(track.codec@)
}

/// The address from which the player fetches a font.
pub open spec fn font_url(video_id: Seq<char>, filename: Seq<char>) -> Seq<char> {
    "/api/videos/"@ + video_id + "/attachments/"@ + filename
}

/// A string as a literal of the script.
pub open spec fn lit(s: Seq<char>) -> Seq<char> {
    quoted(json_string_literal(s))
}

/// A truth value as a literal of the script.
pub open spec fn bool_text(b: bool) -> Seq<char> {
    if b {
        "true"@
    } else {
        "false"@
    }
}

/// A track as an object literal of the script.
pub open spec fn subtitle_entry(video_id: Seq<char>, track: SubtitleTrack) -> Seq<char> {
    "{ name: "@ + lit(track_name(track)) + ", url: "@ + lit(subtitle_url(video_id, track))
        + ", codec: "@ + lit(track.codec@) + ", default: "@ + bool_text(track.is_default) + " }"@
}

/// The statement that hands the tracks to the script.
pub open spec fn subtitles_script(video_id: Seq<char>, tracks: Seq<SubtitleTrack>) -> Seq<char> {
    "const subtitles = ["@ + join(
        tracks.map_values(|t: SubtitleTrack| subtitle_entry(video_id, t)),
        ", "@,
    ) + "];"@
}

/// The statement that hands the addresses of the fonts to the script.
pub open spec fn fonts_script(video_id: Seq<char>, attachments: Seq<Attachment>) -> Seq<char> {
    "const fonts = ["@ + join(
        attachments.map_values(|a: Attachment| lit(font_url(video_id, a.filename@))),
        ", "@,
    ) + "];"@
}

/// The statement that hands the id of the video to the script.
pub open spec fn video_id_script(video_id: Seq<char>) -> Seq<char> {
    "const videoId = "@ + lit(video_id) + ";"@
}

fn track_name_of(track: &SubtitleTrack) -> (name: String)
    ensures
        name@ == track_name(*track),
{
    match &track.title {
        Some(t) => t.clone(),
        None => match &track.language {
            Some(l) => l.clone(),
            None => {
                let mut n = String::from_str("Track ");
                push_decimal(&mut n, track.track_index as u64);
                n
            },
        },
    }
}

/// Makes the address from which the player fetches a track.
pub fn subtitle_url_of(video_id: &str, track: &SubtitleTrack) -> (url: String)
    ensures
        url@ == subtitle_url(video_id@, *track),
{
    let mut url = concat2("/api/videos/", video_id);
    url.append("/subtitles/");
    push_decimal(&mut url, track.track_index as u64);
    url.append(".");
    url.append(subtitle_format_of(track.codec.as_str()));
    url
}

fn subtitle_entry_of(video_id: &str, track: &SubtitleTrack) -> (e: String)
    ensures
        e@ == subtitle_entry(video_id@, *track),
{
    let name = track_name_of(track);
    let url = subtitle_url_of(video_id, track);
    let mut e = String::from_str("{ name: ");
    e.append(json_quote(name.as_str()).as_str());
    e.append(", url: ");
    e.append(json_quote(url.as_str()).as_str());
    e.append(", codec: ");
    e.append(json_quote(track.codec.as_str()).as_str());
    e.append(", default: ");
    if track.is_default {
        e.append("true");
    } else {
        e.append("false");
    }
    e.append(" }");
    e
}

/// Writes the statement that hands the tracks to the script.
pub fn build_subtitles_script(video_id: &str, tracks: &Vec<SubtitleTrack>) -> (s: String)
    ensures
        s@ == subtitles_script(video_id@, tracks@),
{
    let mut entries: Vec<String> = Vec::new();
    let mut i: usize = 0;
    while i < tracks.len()
        invariant
            i <= tracks@.len(),
            entries@.len() == i,
            forall|k: int|
                0 <= k < i ==> (#[trigger] entries@[k])@ == subtitle_entry(video_id@, tracks@[k]),
        decreases tracks@.len() - i,
    {
        entries.push(subtitle_entry_of(video_id, &tracks[i]));
        i += 1;
    }
    assert(strings_view(entries@) =~= tracks@.map_values(
        |t: SubtitleTrack| subtitle_entry(video_id@, t),
    ));
    let mut s = String::from_str("const subtitles = [");
    s.append(join_strings(&entries, ", ").as_str());
    s.append("];");
    s
}

/// Writes the statement that hands the addresses of the fonts to the script.
pub fn build_fonts_script(video_id: &str, attachments: &Vec<Attachment>) -> (s: String)
    ensures
        s@ == fonts_script(video_id@, attachments@),
{
    let mut entries: Vec<String> = Vec::new();
    let mut i: usize = 0;
    while i < attachments.len()
        invariant
            i <= attachments@.len(),
            entries@.len() == i,
            forall|k: int|
                0 <= k < i ==> (#[trigger] entries@[k])@ == lit(
                    font_url(video_id@, attachments@[k].filename@),
                ),
        decreases attachments@.len() - i,
    {
        let mut url = concat2("/api/videos/", video_id);
        url.append("/attachments/");
        url.append(attachments[i].filename.as_str());
        entries.push(json_quote(url.as_str()));
        i += 1;
    }
    assert(strings_view(entries@) =~= attachments@.map_values(
        |a: Attachment| lit(font_url(video_id@, a.filename@)),
    ));
    let mut s = String::from_str("const fonts = [");
    s.append(join_strings(&entries, ", ").as_str());
    s.append("];");
    s
}

/// Writes the statement that hands the id of the video to the script.
pub fn build_video_id_script(video_id: &str) -> (s: String)
    ensures
        s@ == video_id_script(video_id@),
{
    let mut s = String::from_str("const videoId = ");
    s.append(json_quote(video_id).as_str());
    s.append(";");
    s
}

/// The track that the player shows first: the first that is marked as the
/// default, or else the first.
pub open spec fn default_track(tracks: Seq<SubtitleTrack>) -> Option<int> {
    if exists|i: int| 0 <= i < tracks.len() && (#[trigger] tracks[i]).is_default {
        Some(
            choose|i: int|
                0 <= i < tracks.len() && (#[trigger] tracks[i]).is_default && forall|j: int|
                    0 <= j < i ==> !(#[trigger] tracks[j]).is_default,
        )
    } else if tracks.len() > 0 {
        Some(0)
    } else {
        None
    }
}

/// Finds the track that the player shows first.
pub fn default_track_index(tracks: &Vec<SubtitleTrack>) -> (r: Option<usize>)
    ensures
        match r {
            Some(i) => i < tracks@.len() && default_track(tracks@) == Some(i as int),
            None => tracks@.len() == 0 && default_track(tracks@) is None,
        },
{
    let mut i: usize = 0;
    while i < tracks.len()
        invariant
            i <= tracks@.len(),
            forall|j: int| 0 <= j < i ==> !(#[trigger] tracks@[j]).is_default,
        decreases tracks@.len() - i,
    {
        if tracks[i].is_default {
            proof {
                let c = choose|c: int|
                    0 <= c < tracks@.len() && (#[trigger] tracks@[c]).is_default && forall|j: int|
                        0 <= j < c ==> !(#[trigger] tracks@[j]).is_default;
                assert(c == i) by {
                    if c < i {
                        assert(!tracks@[c].is_default);
                    }
                    if i < c {
                        assert(!tracks@[i as int].is_default);
                    }
                }
            }
            return Some(i);
        }
        i += 1;
    }
    if tracks.len() > 0 {
        Some(0)
    } else {
        None
    }
}

// ---------------------------------------------------------------------------
// Chapters
// ---------------------------------------------------------------------------

/// A time in seconds, written with three decimals.
pub open spec fn seconds_text(ms: nat) -> Seq<char> {
    decimal(ms / 1000) + "."@ + padded_decimal(ms % 1000, 3)
}

/// A chapter as an object literal of the script.
pub open spec fn chapter_entry(c: ChapterView) -> Seq<char> {
    "{ start: "@ + seconds_text(c.start_ms as nat) + ", end: "@ + seconds_text(c.end_ms as nat)
        + ", title: "@ + lit(c.title) + " }"@
}

/// The chapters that the player shows: those that lie on the time line.
pub open spec fn shown_chapters(chapters: Seq<Chapter>) -> Seq<Chapter> {
    chapters.filter(|c: Chapter| span_ok(c.start_ms, c.end_ms))
}

/// The statement that hands the chapters to the script.
pub open spec fn chapters_script(chapters: Seq<Chapter>) -> Seq<char> {
    "const chapters = ["@ + join(
        shown_chapters(chapters).map_values(|c: Chapter| chapter_entry(c@)),
        ", "@,
    ) + "];"@
}

fn push_seconds(out: &mut String, ms: u64)
    ensures
        final(out)@ == old(out)@ + seconds_text(ms as nat),
{
    push_decimal(out, ms / 1000);
    out.append(".");
    push_padded_decimal(out, ms % 1000, 3);
    assert(out@ =~= old(out)@ + seconds_text(ms as nat));
}

/// Writes the statement that hands the chapters to the script.
pub fn build_chapters_script(chapters: &Vec<Chapter>) -> (s: String)
    ensures
        s@ == chapters_script(chapters@),
{
    let mut entries: Vec<String> = Vec::new();
    let ghost keep = |c: Chapter| span_ok(c.start_ms, c.end_ms);
    let ghost entry = |c: Chapter| chapter_entry(c@);
    let mut i: usize = 0;
    proof {
        reveal(Seq::filter);
        assert(chapters@.take(0) =~= Seq::<Chapter>::empty());
        assert(strings_view(entries@) =~= chapters@.take(0).filter(keep).map_values(entry));
    }
    while i < chapters.len()
        invariant
            i <= chapters@.len(),
            keep == (|c: Chapter| span_ok(c.start_ms, c.end_ms)),
            entry == (|c: Chapter| chapter_entry(c@)),
            strings_view(entries@) == chapters@.take(i as int).filter(keep).map_values(entry),
        decreases chapters@.len() - i,
    {
        let c = &chapters[i];
        proof {
            reveal(Seq::filter);
            let next = chapters@.take(i as int + 1);
            assert(next.drop_last() =~= chapters@.take(i as int));
            assert(next.last() == chapters@[i as int]);
        }
        if 0 <= c.start_ms && c.start_ms < c.end_ms {
            let mut e = String::from_str("{ start: ");
            push_seconds(&mut e, c.start_ms as u64);
            e.append(", end: ");
            push_seconds(&mut e, c.end_ms as u64);
            e.append(", title: ");
            e.append(json_quote(c.title.as_str()).as_str());
            e.append(" }");
            let ghost before = entries@;
            entries.push(e);
            proof {
                assert(e@ == chapter_entry(c@));
                assert(strings_view(entries@) =~= strings_view(before).push(e@));
                let kept = chapters@.take(i as int).filter(keep);
                assert(kept.push(*c).map_values(entry) =~= kept.map_values(entry).push(e@));
            }
        }
        i += 1;
    }
    assert(chapters@.take(i as int) =~= chapters@);
    let mut s = String::from_str("const chapters = [");
    s.append(join_strings(&entries, ", ").as_str());
    s.append("];");
    s
}

} // verus!
