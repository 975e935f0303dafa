//! Tags as the client sends them: a JSON array of strings, or a list separated by
//! commas.

use crate::json::{json_string_array, read_json_string_array};
use crate::text::{chars_of, split, split_ranges, strings_view, substring, trim, trim_range};
use vstd::prelude::*;
use vstd::string::*;

verus! {

/// The tags of a comma-separated list: the pieces between the commas, each
/// without the white space around it, the empty ones left out.
pub open spec fn csv_tags(text: Seq<char>) -> Seq<Seq<char>> {
    split(text, ',').map_values(|p: Seq<char>| trim(p)).filter(|p: Seq<char>| p.len() > 0)
}

/// The tags of `text`, given what it holds as a JSON array of strings, if
/// anything: those strings, or else the tags of the comma-separated list.
pub open spec fn tags_of(array: Option<Seq<Seq<char>>>, text: Seq<char>) -> Seq<Seq<char>> {
    match array {
        Some(tags) => tags,
        None => csv_tags(text),
    }
}

/// Reads a comma-separated list of tags.
pub fn parse_csv_tags(text: &str) -> (tags: Vec<String>)
    ensures
        strings_view(tags@) == csv_tags(text@),
{
    let chars = chars_of(text);
    let ranges = split_ranges(&chars, ',');
    let mut tags: Vec<String> = Vec::new();
    let ghost pieces = split(text@, ',').map_values(|p: Seq<char>| trim(p));
    let ghost keep = |p: Seq<char>| p.len() > 0;
    let mut i: usize = 0;
    proof {
        reveal(Seq::filter);
        assert(pieces.take(0) =~= Seq::<Seq<char>>::empty());
        assert(strings_view(tags@) =~= pieces.take(0).filter(keep));
    }
    while i < ranges.len()
        invariant
            i <= ranges@.len(),
            chars@ == text@,
            ranges@.len() == split(text@, ',').len(),
            forall|k: int|
                0 <= k < ranges@.len() ==> (#[trigger] ranges@[k]).0 <= ranges@[k].1 <= chars@.len()
                    && chars@.subrange(ranges@[k].0 as int, ranges@[k].1 as int) == split(
                    text@,
                    ',',
                )[k],
            pieces == split(text@, ',').map_values(|p: Seq<char>| trim(p)),
            keep == (|p: Seq<char>| p.len() > 0),
            strings_view(tags@) == pieces.take(i as int).filter(keep),
        decreases ranges@.len() - i,
    {
        let (a, b) = ranges[i];
        let (ta, tb) = trim_range(&chars, a, b);
        proof {
            reveal(Seq::filter);
            let next = pieces.take(i as int + 1);
            assert(next.drop_last() =~= pieces.take(i as int));
            assert(next.last() == trim(split(text@, ',')[i as int]));
            assert(chars@.subrange(ta as int, tb as int) == next.last());
        }
        if ta < tb {
            let ghost before = tags@;
            let piece = substring(text, ta, tb);
            tags.push(piece);
            assert(strings_view(tags@) =~= strings_view(before).push(piece@));
        }
        i += 1;
    }
    assert(pieces.take(i as int) =~= pieces);
    tags
}

/// The tags of `text`, given the outcome of reading it as a JSON array.
pub fn tags_from(array: Option<Vec<String>>, text: &str) -> (tags: Vec<String>)
    ensures
        strings_view(tags@) == tags_of(
            match array {
                Some(v) => Some(strings_view(v@)),
                None => None,
            },
            text@,
        ),
{
    match array {
        Some(v) => v,
        None => parse_csv_tags(text),
    }
}

/// Reads tags: a JSON array of strings where `text` is one, a comma-separated
/// list otherwise.
pub fn parse_tags(text: &str) -> (tags: Vec<String>)
    ensures
        strings_view(tags@) == tags_of(json_string_array(text@), text@),
{
    let array = match read_json_string_array(text) {
        Ok(v) => Some(v),
        Err(_) => None,
    };
    tags_from(array, text)
}

} // verus!
