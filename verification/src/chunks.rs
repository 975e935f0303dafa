//! The chunk reassembler: the record of each upload that arrives in numbered
//! chunks, which chunks are on disk, and the plan for putting them together.
//!
//! The functions decide and keep the books; the caller writes the chunk to the
//! path it is given, and concatenates the files of a plan in their order.

use crate::progress::{frame_ok, make_frame, percent, percentage_of, working_frame};
use crate::registry::{lemma_upsert_lookup, lookup, upserted, ProgressRegistry};
use crate::string_map::StringMap;
use crate::json::json_string_array;
use crate::tags::{parse_tags, tags_of};
use crate::text::{
    chars_of, concat2, decimal, padded_decimal, push_decimal, push_padded_decimal, str_eq,
    strings_view,
};
use crate::types::{
    ChunkedUpload, ChunkedUploadView, ChunkUploadResponse, FinalizeUploadRequest, ProgressView,
};
use vstd::prelude::*;
use vstd::string::*;

verus! {

/// Why a request of the chunked upload was refused.
#[derive(Debug, Clone, Copy, PartialEq, Eq, Structural)]
pub enum UploadError {
    /// The chunk's index is not below the declared number of chunks, or the file
    /// name differs from the one the upload began with.
    ProtocolViolation,
    /// No upload is in reassembly under the id.
    UnknownUpload,
    /// At least one chunk has not arrived.
    IncompleteUpload,
}

impl UploadError {
    /// The HTTP status that answers the error: all three are the client's.
    pub fn status_code(&self) -> (code: u16)
        ensures
            code == 400,
    {
        400
    }

    /// The text that answers the error.
    pub fn message(&self) -> (m: String)
        ensures
            m@ == match *self {
                UploadError::ProtocolViolation => "Chunk does not belong to this upload"@,
                UploadError::UnknownUpload => "Upload ID not found or already finalized"@,
                UploadError::IncompleteUpload => "Not all chunks have been received"@,
            },
    {
        match self {
            UploadError::ProtocolViolation => String::from_str(
                "Chunk does not belong to this upload",
            ),
            UploadError::UnknownUpload => String::from_str(
                "Upload ID not found or already finalized",
            ),
            UploadError::IncompleteUpload => String::from_str("Not all chunks have been received"),
        }
    }
}

// ---------------------------------------------------------------------------
// Names and paths
// ---------------------------------------------------------------------------

/// `s` with every `from` turned into `to`.
pub open spec fn replace_char(s: Seq<char>, from: char, to: char) -> Seq<char> {
    s.map_values(
        |c: char|
            if c == from {
                to
            } else {
                c
            },
    )
}

/// The name under which an upload is listed while its chunks arrive: the file
/// name with its dots turned into underscores.
pub open spec fn listed_name(file_name: Seq<char>) -> Seq<char> {
    replace_char(file_name, '.', '_')
}

/// Makes the name under which an upload is listed while its chunks arrive.
pub fn listed_name_of(file_name: &str) -> (name: String)
    ensures
        name@ == listed_name(file_name@),
{
    let chars = chars_of(file_name);
    let mut name = String::new();
    let mut i: usize = 0;
    assert(name@ =~= listed_name(file_name@.take(0)));
    while i < chars.len()
        invariant
            i <= chars@.len(),
            chars@ == file_name@,
            name@ == listed_name(file_name@.take(i as int)),
        decreases chars@.len() - i,
    {
        let ghost before = name@;
        if chars[i] == '.' {
            proof {
                reveal_strlit("_");
            }
            name.append("_");
        } else {
            name.append(file_name.substring_char(i, i + 1));
        }
        proof {
            let next = file_name@.take(i as int + 1);
            assert(name@ =~= listed_name(next)) by {
                assert(name@.len() == next.len());
                assert forall|k: int| 0 <= k < next.len() implies name@[k] == listed_name(
                    next,
                )[k] by {
                    if k < i {
                        assert(name@[k] == before[k]);
                        assert(file_name@.take(i as int)[k] == next[k]);
                    }
                }
            }
        }
        i += 1;
    }
    assert(file_name@.take(i as int) =~= file_name@);
    name
}

/// The scratch directory of an upload under `scratch_root`.
pub open spec fn scratch_dir(scratch_root: Seq<char>, upload_id: Seq<char>) -> Seq<char> {
    scratch_root + "/chunked-"@ + upload_id
}

/// The file that holds chunk `index` in the directory `dir`: the index is written
/// with at least six digits, so that the names sort in the order of the chunks.
pub open spec fn chunk_path(dir: Seq<char>, index: u32) -> Seq<char> {
    dir + "/chunk_"@ + padded_decimal(index as nat, 6)
}

/// Makes the path of chunk `index` in the directory `dir`.
pub fn chunk_path_of(dir: &str, index: u32) -> (p: String)
    ensures
        p@ == chunk_path(dir@, index),
{
    let mut p = concat2(dir, "/chunk_");
    push_padded_decimal(&mut p, index as u64, 6);
    p
}

/// The file into which the chunks are put together: under `scratch_root`, named
/// by a unique prefix and the file name of the upload.
pub open spec fn assembled_path(
    scratch_root: Seq<char>,
    unique: Seq<char>,
    file_name: Seq<char>,
) -> Seq<char> {
    scratch_root + "/"@ + unique + "-"@ + file_name
}

// ---------------------------------------------------------------------------
// The bit vector
// ---------------------------------------------------------------------------

/// The number of chunks that have arrived.
pub open spec fn count_received(received: Seq<bool>) -> nat
    decreases received.len(),
{
    if received.len() == 0 {
        0
    } else {
        count_received(received.drop_last()) + if received.last() {
            1nat
        } else {
            0nat
        }
    }
}

/// Whether every chunk has arrived.
pub open spec fn all_received(received: Seq<bool>) -> bool {
    forall|i: int| 0 <= i < received.len() ==> #[trigger] received[i]
}

/// No more chunks have arrived than there are.
pub proof fn lemma_count_bounded(received: Seq<bool>)
    ensures
        count_received(received) <= received.len(),
    decreases received.len(),
{
    if received.len() > 0 {
        lemma_count_bounded(received.drop_last());
    }
}

/// Marking a chunk never lowers the count, and marking one that is marked
/// changes nothing: a chunk may be sent again.
pub proof fn lemma_mark_received(received: Seq<bool>, index: int)
    requires
        0 <= index < received.len(),
    ensures
        count_received(received) <= count_received(received.update(index, true)),
        received[index] ==> received.update(index, true) == received,
        received.update(index, true).update(index, true) == received.update(index, true),
    decreases received.len(),
{
    let marked = received.update(index, true);
    if received[index] {
        assert(marked =~= received);
    }
    assert(marked.update(index, true) =~= marked);
    if index == received.len() - 1 {
        assert(marked.drop_last() =~= received.drop_last());
    } else {
        lemma_mark_received(received.drop_last(), index);
        assert(marked.drop_last() =~= received.drop_last().update(index, true));
    }
}

/// The percentage of an upload never falls when a chunk arrives, whether or not
/// it had arrived before.
pub proof fn lemma_received_percentage_never_falls(received: Seq<bool>, index: int, total: nat)
    requires
        0 <= index < received.len(),
    ensures
        percent(count_received(received), total) <= percent(
            count_received(received.update(index, true)),
            total,
        ) <= 100,
{
    lemma_mark_received(received, index);
    crate::progress::lemma_percent_monotonic(
        count_received(received),
        count_received(received.update(index, true)),
        total,
    );
}

/// Counts the chunks that have arrived.
pub fn received_count(received: &Vec<bool>) -> (n: usize)
    ensures
        n == count_received(received@),
{
    let mut n: usize = 0;
    let mut i: usize = 0;
    assert(received@.take(0) =~= Seq::<bool>::empty());
    while i < received.len()
        invariant
            i <= received@.len(),
            n == count_received(received@.take(i as int)),
            n <= i,
        decreases received@.len() - i,
    {
        proof {
            let next = received@.take(i as int + 1);
            assert(next.drop_last() =~= received@.take(i as int));
            assert(next.last() == received@[i as int]);
        }
        if received[i] {
            n += 1;
        }
        i += 1;
    }
    assert(received@.take(i as int) =~= received@);
    n
}

/// Whether every chunk has arrived.
pub fn is_complete(received: &Vec<bool>) -> (r: bool)
    ensures
        r == all_received(received@),
{
    let mut i: usize = 0;
    while i < received.len()
        invariant
            i <= received@.len(),
            forall|k: int| 0 <= k < i ==> #[trigger] received@[k],
        decreases received@.len() - i,
    {
        if !received[i] {
            return false;
        }
        i += 1;
    }
    true
}

// ---------------------------------------------------------------------------
// The records
// ---------------------------------------------------------------------------

/// The records of the uploads in reassembly, by upload id.
pub type Records = Map<Seq<char>, ChunkedUploadView>;

/// The records that a map of uploads holds.
pub open spec fn records(uploads: &StringMap<ChunkedUpload>) -> Records {
    uploads@.map_values(|u: ChunkedUpload| u@)
}

/// Every record has one bit for each chunk that its upload declared.
pub open spec fn records_ok(records: Records) -> bool {
    forall|id: Seq<char>| #[trigger]
        records.dom().contains(id) ==> records[id].received_chunks.len()
            == records[id].total_chunks
}

/// The record of an upload of which no chunk has arrived.
pub open spec fn fresh_record(
    scratch_root: Seq<char>,
    upload_id: Seq<char>,
    total_chunks: u32,
    file_name: Seq<char>,
) -> ChunkedUploadView {
    ChunkedUploadView {
        file_name,
        total_chunks,
        received_chunks: Seq::new(total_chunks as nat, |i: int| false),
        temp_dir: scratch_dir(scratch_root, upload_id),
    }
}

/// Whether a chunk belongs to its upload: its index is below the number of chunks
/// that it declares, and, where the upload has begun, below the number that the
/// upload declared, and its file name is the upload's.
pub open spec fn chunk_admitted(
    records: Records,
    upload_id: Seq<char>,
    chunk_index: u32,
    total_chunks: u32,
    file_name: Seq<char>,
) -> bool {
    chunk_index < total_chunks && (records.dom().contains(upload_id) ==> chunk_index
        < records[upload_id].total_chunks && file_name == records[upload_id].file_name)
}

/// The entry written when the first chunk of an upload is accepted.
pub open spec fn first_chunk_frame(total_chunks: u32, file_name: Seq<char>) -> ProgressView {
    working_frame(
        "Receiving chunks"@,
        0,
        total_chunks,
        0,
        Some("Receiving chunk 1 of "@ + decimal(total_chunks as nat)),
        "processing"@,
        Some(listed_name(file_name)),
    )
}

/// The entry written when `received` of `total_chunks` chunks are on disk.
pub open spec fn received_frame(
    received: nat,
    total_chunks: u32,
    file_name: Seq<char>,
) -> ProgressView {
    working_frame(
        "Receiving chunks"@,
        received as u32,
        total_chunks,
        percent(received, total_chunks as nat) as u32,
        Some("Received chunk "@ + decimal(received) + " of "@ + decimal(total_chunks as nat)),
        "processing"@,
        Some(listed_name(file_name)),
    )
}

/// The entry written when all chunks are on disk and are about to be put
/// together.
pub open spec fn assembling_frame(total_chunks: u32, video_name: Seq<char>) -> ProgressView {
    working_frame(
        "Assembling file"@,
        total_chunks,
        total_chunks,
        100,
        Some("Assembling chunks into final file..."@),
        "processing"@,
        Some(video_name),
    )
}

/// The entries that the reassembler writes keep to a percentage of at most 100
/// and to a status under way.
pub proof fn lemma_chunk_frames_ok(received: nat, total_chunks: u32, name: Seq<char>)
    ensures
        frame_ok(first_chunk_frame(total_chunks, name)),
        frame_ok(received_frame(received, total_chunks, name)),
        frame_ok(assembling_frame(total_chunks, name)),
{
    crate::progress::lemma_percent_monotonic(received, received, total_chunks as nat);
}

/// Whether an entry tells what a record holds: its percentage is the share of
/// the chunks that are marked.
pub open spec fn entry_agrees(record: ChunkedUploadView, entry: ProgressView) -> bool {
    entry.percentage == percent(
        count_received(record.received_chunks),
        record.total_chunks as nat,
    )
}

/// What holds of the entry of an upload once a chunk was recorded, given the
/// record and the entry before (`prior`) and after (`entry`): the upload has an
/// entry, the entry tells what the record holds, and its percentage is at most
/// 100. Where the entry before told what the record held, the percentage has not
/// fallen.
pub open spec fn percentage_kept(
    record_before: ChunkedUploadView,
    prior: Option<ProgressView>,
    record_after: ChunkedUploadView,
    entry: Option<ProgressView>,
) -> bool {
    &&& entry is Some
    &&& entry_agrees(record_after, entry->0)
    &&& entry->0.percentage <= 100
    &&& (prior is Some && entry_agrees(record_before, prior->0)) ==> prior->0.percentage
        <= entry->0.percentage
}

/// Of a record without a marked chunk, nothing has arrived.
pub proof fn lemma_fresh_record_is_empty(total_chunks: nat)
    ensures
        count_received(Seq::new(total_chunks, |i: int| false)) == 0,
    decreases total_chunks,
{
    let bits = Seq::new(total_chunks, |i: int| false);
    if total_chunks > 0 {
        lemma_fresh_record_is_empty((total_chunks - 1) as nat);
        assert(bits.drop_last() =~= Seq::new((total_chunks - 1) as nat, |i: int| false));
    }
}

/// When a chunk of an upload is recorded, the percentage that the upload's entry
/// shows does not fall, provided that the entry before told what the record
/// held, as every entry does that the reassembler wrote.
pub proof fn lemma_entry_percentage_never_falls(
    record: ChunkedUploadView,
    prior: ProgressView,
    index: int,
)
    requires
        entry_agrees(record, prior),
        0 <= index < record.received_chunks.len(),
    ensures
        prior.percentage <= received_frame(
            count_received(record.received_chunks.update(index, true)),
            record.total_chunks,
            record.file_name,
        ).percentage <= 100,
        entry_agrees(
            ChunkedUploadView {
                received_chunks: record.received_chunks.update(index, true),
                ..record
            },
            received_frame(
                count_received(record.received_chunks.update(index, true)),
                record.total_chunks,
                record.file_name,
            ),
        ),
{
    lemma_received_percentage_never_falls(
        record.received_chunks,
        index,
        record.total_chunks as nat,
    );
}

/// Accepts a chunk for writing.
///
/// A chunk that belongs to its upload gets the path to write it to. The first
/// chunk of an upload opens the upload's record, with no chunk marked, and writes
/// the upload's first entry. A chunk that does not belong is refused, and nothing
/// changes.
pub fn accept_chunk(
    uploads: &mut StringMap<ChunkedUpload>,
    registry: &mut ProgressRegistry,
    upload_id: &str,
    chunk_index: u32,
    total_chunks: u32,
    file_name: &str,
    scratch_root: &str,
    now: u64,
) -> (r: Result<String, UploadError>)
    requires
        old(uploads).wf(),
        old(registry).wf(),
        records_ok(records(old(uploads))),
    ensures
        final(uploads).wf(),
        final(registry).wf(),
        records_ok(records(final(uploads))),
        match r {
            Ok(path) => {
                let before = records(old(uploads));
                &&& chunk_admitted(before, upload_id@, chunk_index, total_chunks, file_name@)
                &&& if before.dom().contains(upload_id@) {
                    &&& path@ == chunk_path(before[upload_id@].temp_dir, chunk_index)
                    &&& records(final(uploads)) == before
                    &&& final(registry)@ == old(registry)@
                } else {
                    &&& path@ == chunk_path(scratch_dir(scratch_root@, upload_id@), chunk_index)
                    &&& records(final(uploads)) == before.insert(
                        upload_id@,
                        fresh_record(scratch_root@, upload_id@, total_chunks, file_name@),
                    )
                    &&& final(registry)@ == upserted(
                        old(registry)@,
                        upload_id@,
                        first_chunk_frame(total_chunks, file_name@),
                        now,
                    )
                    &&& lookup(final(registry)@, upload_id@) is Some
                    &&& entry_agrees(
                        fresh_record(scratch_root@, upload_id@, total_chunks, file_name@),
                        lookup(final(registry)@, upload_id@)->0,
                    )
                }
            },
            Err(e) => {
                &&& e == UploadError::ProtocolViolation
                &&& !chunk_admitted(
                    records(old(uploads)),
                    upload_id@,
                    chunk_index,
                    total_chunks,
                    file_name@,
                )
                &&& records(final(uploads)) == records(old(uploads))
                &&& final(registry)@ == old(registry)@
            },
        },
{
    if chunk_index >= total_chunks {
        return Err(UploadError::ProtocolViolation);
    }
    match uploads.get(upload_id) {
        Some(record) => {
            assert(records(uploads)[upload_id@] == record@);
            if chunk_index >= record.total_chunks || !str_eq(
                file_name,
                record.file_name.as_str(),
            ) {
                return Err(UploadError::ProtocolViolation);
            }
            Ok(chunk_path_of(record.temp_dir.as_str(), chunk_index))
        },
        None => {
            let mut dir = concat2(scratch_root, "/chunked-");
            dir.append(upload_id);
            let path = chunk_path_of(dir.as_str(), chunk_index);
            let record = ChunkedUpload {
                file_name: String::from_str(file_name),
                total_chunks,
                received_chunks: vec![false; total_chunks as usize],
                temp_dir: dir,
            };
            assert(record@.received_chunks =~= Seq::new(total_chunks as nat, |i: int| false));
            let mut details = String::from_str("Receiving chunk 1 of ");
            push_decimal(&mut details, total_chunks as u64);
            let frame = make_frame(
                "Receiving chunks",
                0,
                total_chunks,
                0,
                Some(details),
                "processing",
                Some(listed_name_of(file_name)),
            );
            uploads.insert(upload_id, record);
            registry.upsert(upload_id, frame, now);
            assert(records(uploads) =~= records(old(uploads)).insert(upload_id@, record@));
            proof {
                lemma_upsert_lookup(old(registry)@, upload_id@, frame@, now, upload_id@);
                lemma_fresh_record_is_empty(total_chunks as nat);
            }
            Ok(path)
        },
    }
}

/// Records that a chunk is on disk, and writes the upload's entry.
///
/// The chunk is marked, whether or not it was marked before, and the entry tells
/// how many chunks are marked: its percentage is their share, and it has not
/// fallen where the entry before told what the record held. Where no upload is
/// in reassembly under the id, or the upload has no such chunk, the request is
/// refused and nothing changes.
pub fn chunk_received(
    uploads: &mut StringMap<ChunkedUpload>,
    registry: &mut ProgressRegistry,
    upload_id: &str,
    chunk_index: u32,
    now: u64,
) -> (r: Result<ChunkUploadResponse, UploadError>)
    requires
        old(uploads).wf(),
        old(registry).wf(),
        records_ok(records(old(uploads))),
    ensures
        final(uploads).wf(),
        final(registry).wf(),
        records_ok(records(final(uploads))),
        match r {
            Ok(response) => {
                let before = records(old(uploads));
                let marked = before[upload_id@].received_chunks.update(chunk_index as int, true);
                &&& before.dom().contains(upload_id@)
                &&& chunk_index < before[upload_id@].total_chunks
                &&& records(final(uploads)) == before.insert(
                    upload_id@,
                    ChunkedUploadView { received_chunks: marked, ..before[upload_id@] },
                )
                &&& final(registry)@ == upserted(
                    old(registry)@,
                    upload_id@,
                    received_frame(
                        count_received(marked),
                        before[upload_id@].total_chunks,
                        before[upload_id@].file_name,
                    ),
                    now,
                )
                &&& percentage_kept(
                    before[upload_id@],
                    lookup(old(registry)@, upload_id@),
                    records(final(uploads))[upload_id@],
                    lookup(final(registry)@, upload_id@),
                )
                &&& response.upload_id@ == upload_id@
                &&& response.chunk_index == chunk_index
                &&& response.received
            },
            Err(e) => {
                let before = records(old(uploads));
                &&& e == if before.dom().contains(upload_id@) {
                    UploadError::ProtocolViolation
                } else {
                    UploadError::UnknownUpload
                }
                &&& before.dom().contains(upload_id@) ==> chunk_index
                    >= before[upload_id@].total_chunks
                &&& records(final(uploads)) == before
                &&& final(registry)@ == old(registry)@
            },
        },
{
    let ghost before = records(uploads);
    match uploads.get(upload_id) {
        None => {
            return Err(UploadError::UnknownUpload);
        },
        Some(record) => {
            assert(before[upload_id@] == record@);
            if chunk_index >= record.total_chunks {
                return Err(UploadError::ProtocolViolation);
            }
        },
    }
    let mut record = match uploads.remove(upload_id) {
        Some(record) => record,
        None => {
            return Err(UploadError::UnknownUpload);
        },
    };
    assert(record@ == before[upload_id@]);
    assert(before.dom().contains(upload_id@));
    assert(record@.received_chunks.len() == record.total_chunks);
    record.received_chunks.set(chunk_index as usize, true);
    let count = received_count(&record.received_chunks);
    proof {
        lemma_count_bounded(record.received_chunks@);
    }
    let mut details = String::from_str("Received chunk ");
    push_decimal(&mut details, count as u64);
    details.append(" of ");
    push_decimal(&mut details, record.total_chunks as u64);
    let frame = make_frame(
        "Receiving chunks",
        count as u32,
        record.total_chunks,
        percentage_of(count as u32, record.total_chunks),
        Some(details),
        "processing",
        Some(listed_name_of(record.file_name.as_str())),
    );
    let ghost after = record@;
    uploads.insert(upload_id, record);
    registry.upsert(upload_id, frame, now);
    assert(records(uploads) =~= before.insert(upload_id@, after));
    proof {
        lemma_upsert_lookup(old(registry)@, upload_id@, frame@, now, upload_id@);
        let prior = lookup(old(registry)@, upload_id@);
        if prior is Some && entry_agrees(before[upload_id@], prior->0) {
            lemma_entry_percentage_never_falls(before[upload_id@], prior->0, chunk_index as int);
        }
        lemma_received_percentage_never_falls(
            before[upload_id@].received_chunks,
            chunk_index as int,
            before[upload_id@].total_chunks as nat,
        );
    }
    Ok(
        ChunkUploadResponse {
            upload_id: String::from_str(upload_id),
            chunk_index,
            received: true,
        },
    )
}

/// What is to be done with the chunks of a complete upload.
#[derive(Debug, Clone)]
pub struct FinalizePlan {
    /// The files of the chunks, in the order in which they are put together.
    pub chunk_paths: Vec<String>,
    /// The file to put them into.
    pub final_path: String,
    /// The scratch directory to remove afterwards.
    pub scratch_dir: String,
    /// The name of the video.
    pub video_name: String,
    /// The tags of the video.
    pub tags: Vec<String>,
}

/// The files of the chunks of an upload, in ascending order of their indices.
pub open spec fn chunk_paths(dir: Seq<char>, total_chunks: u32) -> Seq<Seq<char>> {
    Seq::new(total_chunks as nat, |i: int| chunk_path(dir, i as u32))
}

/// The tags of a request: those of its tag text, or none where it has none.
pub open spec fn request_tags(tags: Option<Seq<char>>) -> Seq<Seq<char>> {
    match tags {
        Some(text) => tags_of(json_string_array(text), text),
        None => Seq::empty(),
    }
}

/// What closing a chunked upload comes to, with the unique prefix `unique` and at
/// the time `now`.
///
/// Where every chunk has arrived, the upload's record is removed, its entry says
/// that the file is being assembled, and the plan tells which files to
/// concatenate, in which order and into which file. Where a chunk is missing, or
/// no upload is in reassembly under the id, the request is refused and nothing
/// changes.
pub open spec fn finalized(
    before: Records,
    registry_before: Seq<crate::registry::Entry>,
    after: Records,
    registry_after: Seq<crate::registry::Entry>,
    upload_id: Seq<char>,
    request: FinalizeUploadRequest,
    scratch_root: Seq<char>,
    unique: Seq<char>,
    now: u64,
    r: Result<FinalizePlan, UploadError>,
) -> bool {
    match r {
        Ok(plan) => {
            let record = before[upload_id];
            &&& before.dom().contains(upload_id)
            &&& all_received(record.received_chunks)
            &&& after == before.remove(upload_id)
            &&& registry_after == upserted(
                registry_before,
                upload_id,
                assembling_frame(record.total_chunks, request.name@),
                now,
            )
            &&& strings_view(plan.chunk_paths@) == chunk_paths(record.temp_dir, record.total_chunks)
            &&& plan.final_path@ == assembled_path(scratch_root, unique, record.file_name)
            &&& plan.scratch_dir@ == record.temp_dir
            &&& plan.video_name@ == request.name@
            &&& strings_view(plan.tags@) == request_tags(
                match request.tags {
                    Some(t) => Some(t@),
                    None => None,
                },
            )
        },
        Err(e) => {
            &&& e == if before.dom().contains(upload_id) {
                UploadError::IncompleteUpload
            } else {
                UploadError::UnknownUpload
            }
            &&& before.dom().contains(upload_id) ==> !all_received(
                before[upload_id].received_chunks,
            )
            &&& after == before
            &&& registry_after == registry_before
        },
    }
}

/// Closes a chunked upload, with the unique prefix `unique` for the assembled file
/// and at the time `now`.
pub fn finalize_chunked_upload(
    uploads: &mut StringMap<ChunkedUpload>,
    registry: &mut ProgressRegistry,
    upload_id: &str,
    request: &FinalizeUploadRequest,
    scratch_root: &str,
    unique: &str,
    now: u64,
) -> (r: Result<FinalizePlan, UploadError>)
    requires
        old(uploads).wf(),
        old(registry).wf(),
        records_ok(records(old(uploads))),
    ensures
        final(uploads).wf(),
        final(registry).wf(),
        records_ok(records(final(uploads))),
        finalized(
            records(old(uploads)),
            old(registry)@,
            records(final(uploads)),
            final(registry)@,
            upload_id@,
            *request,
            scratch_root@,
            unique@,
            now,
            r,
        ),
{
    let ghost before = records(uploads);
    match uploads.get(upload_id) {
        None => {
            return Err(UploadError::UnknownUpload);
        },
        Some(record) => {
            assert(before[upload_id@] == record@);
            if !is_complete(&record.received_chunks) {
                return Err(UploadError::IncompleteUpload);
            }
        },
    }
    let record = match uploads.remove(upload_id) {
        Some(record) => record,
        None => {
            return Err(UploadError::UnknownUpload);
        },
    };
    assert(record@ == before[upload_id@]);
    assert(records(uploads) =~= before.remove(upload_id@));
    let frame = make_frame(
        "Assembling file",
        record.total_chunks,
        record.total_chunks,
        100,
        Some(String::from_str("Assembling chunks into final file...")),
        "processing",
        Some(request.name.clone()),
    );
    registry.upsert(upload_id, frame, now);
    let mut paths: Vec<String> = Vec::new();
    let mut i: u32 = 0;
    while i < record.total_chunks
        invariant
            i <= record.total_chunks,
            paths@.len() == i,
            forall|k: int|
                0 <= k < i ==> (#[trigger] paths@[k])@ == chunk_path(record@.temp_dir, k as u32),
        decreases record.total_chunks - i,
    {
        paths.push(chunk_path_of(record.temp_dir.as_str(), i));
        i += 1;
    }
    assert(strings_view(paths@) =~= chunk_paths(record@.temp_dir, record.total_chunks));
    let mut final_path = concat2(scratch_root, "/");
    final_path.append(unique);
    final_path.append("-");
    final_path.append(record.file_name.as_str());
    let tags = match &request.tags {
        Some(text) => parse_tags(text.as_str()),
        None => Vec::new(),
    };
    assert(request.tags is None ==> strings_view(tags@) =~= Seq::<Seq<char>>::empty());
    Ok(
        FinalizePlan {
            chunk_paths: paths,
            final_path,
            scratch_dir: record.temp_dir,
            video_name: request.name.clone(),
            tags,
        },
    )
}

/// Closes a chunked upload now: the clock is read once and a unique prefix, in
/// the shape of every id, is drawn once, and the upload is closed as
/// [`finalize_chunked_upload`] closes it for what they gave.
pub fn finalize_upload(
    uploads: &mut StringMap<ChunkedUpload>,
    registry: &mut ProgressRegistry,
    upload_id: &str,
    request: &FinalizeUploadRequest,
    scratch_root: &str,
) -> (r: Result<FinalizePlan, UploadError>)
    requires
        old(uploads).wf(),
        old(registry).wf(),
        records_ok(records(old(uploads))),
    ensures
        final(uploads).wf(),
        final(registry).wf(),
        records_ok(records(final(uploads))),
        exists|unique: Seq<char>, now: u64|
            crate::ids::id_shape(unique) && finalized(
                records(old(uploads)),
                old(registry)@,
                records(final(uploads)),
                final(registry)@,
                upload_id@,
                *request,
                scratch_root@,
                unique,
                now,
                r,
            ),
{
    let now = crate::clock::now_millis();
    let unique = crate::ids::random_id();
    let r = finalize_chunked_upload(
        uploads,
        registry,
        upload_id,
        request,
        scratch_root,
        unique.as_str(),
        now,
    );
    assert(crate::ids::id_shape(unique@) && finalized(
        records(old(uploads)),
        old(registry)@,
        records(uploads),
        registry@,
        upload_id@,
        *request,
        scratch_root@,
        unique@,
        now,
        r,
    ));
    r
}

/// Gives up the reassembly of an upload: its record is removed, and the result is
/// the scratch directory to delete, if the upload was in reassembly.
pub fn cancel_if_reassembling(uploads: &mut StringMap<ChunkedUpload>, upload_id: &str) -> (dir:
    Option<String>)
    requires
        old(uploads).wf(),
        records_ok(records(old(uploads))),
    ensures
        final(uploads).wf(),
        records_ok(records(final(uploads))),
        records(final(uploads)) == records(old(uploads)).remove(upload_id@),
        match dir {
            Some(d) => records(old(uploads)).dom().contains(upload_id@) && d@ == records(
                old(uploads),
            )[upload_id@].temp_dir,
            None => !records(old(uploads)).dom().contains(upload_id@),
        },
{
    let removed = uploads.remove(upload_id);
    assert(records(uploads) =~= records(old(uploads)).remove(upload_id@));
    match removed {
        Some(record) => Some(record.temp_dir),
        None => None,
    }
}

} // verus!
