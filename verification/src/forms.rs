//! What the upload endpoints require of a request before anything is written:
//! which fields must be there and what their texts must hold.

use crate::tags::{parse_tags, tags_of};
use crate::json::json_string_array;
use crate::text::{chars_of, parse_u32, parse_unsigned, strings_view};
use crate::types::UploadAccepted;
use vstd::prelude::*;
use vstd::string::*;

verus! {

/// Why a request of an upload endpoint was refused before anything was written.
#[derive(Debug, Clone, Copy, PartialEq, Eq, Structural)]
pub enum FormError {
    MissingUploadId,
    MissingFile,
    MissingName,
    MissingChunk,
    MissingChunkIndex,
    MissingTotalChunks,
    MissingFileName,
    InvalidChunkIndex,
    InvalidTotalChunks,
}

impl FormError {
    /// The HTTP status that answers the error: all are the client's.
    pub fn status_code(&self) -> (code: u16)
        ensures
            code == 400,
    {
        400
    }

    /// The text that answers the error.
    pub fn message(&self) -> (m: &'static str)
        ensures
            m@ == match *self {
                FormError::MissingUploadId => "Missing X-Upload-ID header"@,
                FormError::MissingFile => "missing file field 'file'"@,
                FormError::MissingName => "missing field 'name'"@,
                FormError::MissingChunk => "Missing chunk data"@,
                FormError::MissingChunkIndex => "Missing chunk_index"@,
                FormError::MissingTotalChunks => "Missing total_chunks"@,
                FormError::MissingFileName => "Missing file_name"@,
                FormError::InvalidChunkIndex => "Invalid chunk_index"@,
                FormError::InvalidTotalChunks => "Invalid total_chunks"@,
            },
    {
        match self {
            FormError::MissingUploadId => "Missing X-Upload-ID header",
            FormError::MissingFile => "missing file field 'file'",
            FormError::MissingName => "missing field 'name'",
            FormError::MissingChunk => "Missing chunk data",
            FormError::MissingChunkIndex => "Missing chunk_index",
            FormError::MissingTotalChunks => "Missing total_chunks",
            FormError::MissingFileName => "Missing file_name",
            FormError::InvalidChunkIndex => "Invalid chunk_index",
            FormError::InvalidTotalChunks => "Invalid total_chunks",
        }
    }
}

/// The number that the text of a numeric field writes, if it writes one that fits
/// in 32 bits.
pub open spec fn field_number(text: Seq<char>) -> Option<u32> {
    match parse_unsigned(text) {
        Some(n) => if n <= u32::MAX {
            Some(n as u32)
        } else {
            None
        },
        None => None,
    }
}

/// The fields of a chunk request, as far as they are texts.
#[derive(Debug, Clone)]
pub struct ChunkForm {
    /// The `X-Upload-ID` header.
    pub upload_id: Option<String>,
    /// Whether the field `chunk`, with the bytes, was there.
    pub has_chunk: bool,
    pub chunk_index: Option<String>,
    pub total_chunks: Option<String>,
    pub file_name: Option<String>,
}

/// What a chunk request says, once it has been found complete.
#[derive(Debug, Clone)]
pub struct ChunkFields {
    pub upload_id: String,
    pub chunk_index: u32,
    pub total_chunks: u32,
    pub file_name: String,
}

/// The first thing that is wrong with a chunk request, if anything is: the upload
/// id is asked for first, then that the numbers can be read, then that every
/// field is there.
pub open spec fn chunk_form_error(form: ChunkForm) -> Option<FormError> {
    if form.upload_id is None {
        Some(FormError::MissingUploadId)
    } else if form.chunk_index is Some && field_number(form.chunk_index->0@) is None {
        Some(FormError::InvalidChunkIndex)
    } else if form.total_chunks is Some && field_number(form.total_chunks->0@) is None {
        Some(FormError::InvalidTotalChunks)
    } else if !form.has_chunk {
        Some(FormError::MissingChunk)
    } else if form.chunk_index is None {
        Some(FormError::MissingChunkIndex)
    } else if form.total_chunks is None {
        Some(FormError::MissingTotalChunks)
    } else if form.file_name is None {
        Some(FormError::MissingFileName)
    } else {
        None
    }
}

/// Reads a chunk request.
pub fn read_chunk_form(form: &ChunkForm) -> (r: Result<ChunkFields, FormError>)
    ensures
        match r {
            Ok(fields) => {
                &&& chunk_form_error(*form) is None
                &&& fields.upload_id@ == form.upload_id->0@
                &&& Some(fields.chunk_index) == field_number(form.chunk_index->0@)
                &&& Some(fields.total_chunks) == field_number(form.total_chunks->0@)
                &&& fields.file_name@ == form.file_name->0@
            },
            Err(e) => chunk_form_error(*form) == Some(e),
        },
{
    let upload_id = match &form.upload_id {
        Some(id) => id.clone(),
        None => {
            return Err(FormError::MissingUploadId);
        },
    };
    let chunk_index = match &form.chunk_index {
        Some(text) => match parse_u32(&chars_of(text.as_str())) {
            Some(n) => Some(n),
            None => {
                return Err(FormError::InvalidChunkIndex);
            },
        },
        None => None,
    };
    let total_chunks = match &form.total_chunks {
        Some(text) => match parse_u32(&chars_of(text.as_str())) {
            Some(n) => Some(n),
            None => {
                return Err(FormError::InvalidTotalChunks);
            },
        },
        None => None,
    };
    if !form.has_chunk {
        return Err(FormError::MissingChunk);
    }
    let chunk_index = match chunk_index {
        Some(n) => n,
        None => {
            return Err(FormError::MissingChunkIndex);
        },
    };
    let total_chunks = match total_chunks {
        Some(n) => n,
        None => {
            return Err(FormError::MissingTotalChunks);
        },
    };
    let file_name = match &form.file_name {
        Some(n) => n.clone(),
        None => {
            return Err(FormError::MissingFileName);
        },
    };
    Ok(ChunkFields { upload_id, chunk_index, total_chunks, file_name })
}

/// The fields of a plain upload, once its file is on disk.
#[derive(Debug, Clone)]
pub struct UploadForm {
    /// Where the file was written, if the field `file` was there.
    pub file_path: Option<String>,
    pub name: Option<String>,
    pub tags: Option<String>,
}

/// What a plain upload says, once it has been found complete.
#[derive(Debug, Clone)]
pub struct UploadFields {
    pub file_path: String,
    pub name: String,
    pub tags: Vec<String>,
}

/// Reads the form of a plain upload: the file and the name must be there; the
/// tags are a JSON array or a comma-separated list, and none if the field is
/// missing.
pub fn read_upload_form(form: &UploadForm) -> (r: Result<UploadFields, FormError>)
    ensures
        match r {
            Ok(fields) => {
                &&& form.file_path matches Some(p)
                &&& fields.file_path@ == p@
                &&& form.name matches Some(n)
                &&& fields.name@ == n@
                &&& strings_view(fields.tags@) == match form.tags {
                    Some(t) => tags_of(json_string_array(t@), t@),
                    None => Seq::empty(),
                }
            },
            Err(e) => {
                &&& form.file_path is None || form.name is None
                &&& e == if form.file_path is None {
                    FormError::MissingFile
                } else {
                    FormError::MissingName
                }
            },
        },
{
    let file_path = match &form.file_path {
        Some(p) => p.clone(),
        None => {
            return Err(FormError::MissingFile);
        },
    };
    let name = match &form.name {
        Some(n) => n.clone(),
        None => {
            return Err(FormError::MissingName);
        },
    };
    let tags = match &form.tags {
        Some(t) => parse_tags(t.as_str()),
        None => Vec::new(),
    };
    assert(form.tags is None ==> strings_view(tags@) =~= Seq::<Seq<char>>::empty());
    Ok(UploadFields { file_path, name, tags })
}

/// The file name of an upload that names none.
pub open spec fn file_name_or_default(file_name: Option<Seq<char>>) -> Seq<char> {
    match file_name {
        Some(n) => n,
        None => "upload.mp4"@,
    }
}

/// The file under which a plain upload is written: under `scratch_root`, named by
/// a unique prefix and the file name that the client gave, or `upload.mp4`.
pub fn upload_path(scratch_root: &str, unique: &str, file_name: Option<&str>) -> (p: String)
    ensures
        p@ == crate::chunks::assembled_path(
            scratch_root@,
            unique@,
            file_name_or_default(
                match file_name {
                    Some(n) => Some(n@),
                    None => None,
                },
            ),
        ),
{
    let mut p = crate::text::concat3(scratch_root, "/", unique);
    p.append("-");
    match file_name {
        Some(n) => p.append(n),
        None => p.append("upload.mp4"),
    }
    p
}

/// The characters of a string that may be missing.
pub open spec fn given_chars(s: Option<&str>) -> Option<Seq<char>> {
    match s {
        Some(s) => Some(s@),
        None => None,
    }
}

/// Chooses the file under which a plain upload is written, with a unique prefix
/// drawn at random, in the shape of every id.
pub fn new_upload_path(scratch_root: &str, file_name: Option<&str>) -> (p: String)
    ensures
        exists|unique: Seq<char>|
            crate::ids::id_shape(unique) && p@ == #[trigger] crate::chunks::assembled_path(
                scratch_root@,
                unique,
                file_name_or_default(given_chars(file_name)),
            ),
{
    let unique = crate::ids::random_id();
    let p = upload_path(scratch_root, unique.as_str(), file_name);
    assert(crate::ids::id_shape(unique@) && p@ == crate::chunks::assembled_path(
        scratch_root@,
        unique@,
        file_name_or_default(given_chars(file_name)),
    ));
    p
}

// ---------------------------------------------------------------------------
// Answers
// ---------------------------------------------------------------------------

/// The answer to a plain upload whose file has arrived.
pub fn upload_accepted(upload_id: String) -> (r: UploadAccepted)
    ensures
        r.upload_id == upload_id,
        r.message@ == "File uploaded successfully, processing started in background"@,
{
    UploadAccepted {
        upload_id,
        message: String::from_str("File uploaded successfully, processing started in background"),
    }
}

/// The answer to a chunked upload that was closed.
pub fn finalize_accepted(upload_id: String) -> (r: UploadAccepted)
    ensures
        r.upload_id == upload_id,
        r.message@ == "Chunked upload finalized, processing started in background"@,
{
    UploadAccepted {
        upload_id,
        message: String::from_str("Chunked upload finalized, processing started in background"),
    }
}

} // verus!
