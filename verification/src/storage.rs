//! The artifact upload: which object key each file of the output directory gets,
//! which of them is the master playlist, and how the upload ends.

use crate::pipeline::PipelineError;
use crate::progress::{percent, stored_frame, stored_files_text, working_frame};
use crate::text::{concat2, str_eq, strings_view};
use crate::types::ProgressUpdate;
use vstd::prelude::*;
use vstd::string::*;

verus! {

/// How many files go to the object store at a time, unless configured otherwise.
pub const DEFAULT_CONCURRENT_UPLOADS: usize = 30;

/// The key of the file at `relative_path` under the output directory.
pub open spec fn object_key(prefix: Seq<char>, relative_path: Seq<char>) -> Seq<char> {
    prefix + relative_path
}

/// The keys of the files, in their order.
pub open spec fn object_keys(prefix: Seq<char>, relative_paths: Seq<Seq<char>>) -> Seq<Seq<char>> {
    relative_paths.map_values(|p: Seq<char>| object_key(prefix, p))
}

/// The key of the master playlist: that of the file `index.m3u8` directly under
/// the output directory, if there is one.
pub open spec fn master_key(prefix: Seq<char>, relative_paths: Seq<Seq<char>>) -> Option<
    Seq<char>,
> {
    if relative_paths.contains("index.m3u8"@) {
        Some(object_key(prefix, "index.m3u8"@))
    } else {
        None
    }
}

/// The files to store and the key of the master playlist among them.
#[derive(Debug, Clone)]
pub struct UploadPlan {
    /// The key of each file, in the order of the files.
    pub keys: Vec<String>,
    /// The key of the master playlist, if it is among the files.
    pub master_key: Option<String>,
}

/// Assigns each file of the output directory its object key.
///
/// `relative_paths` holds the path of each file relative to the output directory,
/// its parts separated by slashes.
pub fn plan_upload(prefix: &str, relative_paths: &Vec<String>) -> (plan: UploadPlan)
    ensures
        strings_view(plan.keys@) == object_keys(prefix@, strings_view(relative_paths@)),
        match plan.master_key {
            Some(k) => Some(k@),
            None => None,
        } == master_key(prefix@, strings_view(relative_paths@)),
{
    let mut keys: Vec<String> = Vec::new();
    let mut master: Option<String> = None;
    let ghost paths = strings_view(relative_paths@);
    let mut i: usize = 0;
    while i < relative_paths.len()
        invariant
            i <= relative_paths@.len(),
            paths == strings_view(relative_paths@),
            keys@.len() == i,
            forall|k: int| 0 <= k < i ==> (#[trigger] keys@[k])@ == object_key(prefix@, paths[k]),
            match master {
                Some(k) => Some(k@),
                None => None,
            } == master_key(prefix@, paths.take(i as int)),
        decreases relative_paths@.len() - i,
    {
        let path = relative_paths[i].as_str();
        let key = concat2(prefix, path);
        proof {
            assert(paths[i as int] == path@);
            let next = paths.take(i as int + 1);
            assert(next.contains("index.m3u8"@) <==> (paths.take(i as int).contains(
                "index.m3u8"@,
            ) || path@ == "index.m3u8"@)) by {
                if next.contains("index.m3u8"@) {
                    let j = choose|j: int| 0 <= j < next.len() && next[j] == "index.m3u8"@;
                    if j < i {
                        assert(paths.take(i as int)[j] == "index.m3u8"@);
                    }
                }
                if paths.take(i as int).contains("index.m3u8"@) {
                    let j = choose|j: int|
                        0 <= j < i && paths.take(i as int)[j] == "index.m3u8"@;
                    assert(next[j] == "index.m3u8"@);
                }
                if path@ == "index.m3u8"@ {
                    assert(next[i as int] == "index.m3u8"@);
                }
            }
        }
        if str_eq(path, "index.m3u8") {
            master = Some(key.clone());
        }
        keys.push(key);
        i += 1;
    }
    proof {
        assert(paths.take(i as int) =~= paths);
        assert(strings_view(keys@) =~= object_keys(prefix@, paths));
    }
    UploadPlan { keys, master_key: master }
}

/// Counts a file that has reached the object store, and makes the entry that tells
/// how far the upload is.
pub fn file_stored(uploaded: &mut u32, total_files: u32, video_name: Option<&str>) -> (f:
    ProgressUpdate)
    requires
        *old(uploaded) < u32::MAX,
    ensures
        *final(uploaded) == *old(uploaded) + 1,
        f@ == working_frame(
            "Upload to R2"@,
            *final(uploaded),
            total_files,
            percent(*final(uploaded) as nat, total_files as nat) as u32,
            Some(stored_files_text(*final(uploaded), total_files)),
            "processing"@,
            match video_name {
                Some(n) => Some(n@),
                None => None,
            },
        ),
{
    *uploaded = *uploaded + 1;
    stored_frame(*uploaded, total_files, video_name)
}

/// How the upload ends: with the first failure, if a file was refused; else with
/// the key of the master playlist; or with `NoMasterPlaylist` where the files
/// held none.
pub fn finish_upload(plan: UploadPlan, failure: Option<PipelineError>) -> (r: Result<
    String,
    PipelineError,
>)
    ensures
        match r {
            Ok(key) => {
                &&& failure is None
                &&& plan.master_key matches Some(k)
                &&& key@ == k@
            },
            Err(e) => match failure {
                Some(f) => e == f,
                None => plan.master_key is None && e is NoMasterPlaylist,
            },
        },
{
    match failure {
        Some(f) => Err(f),
        None => match plan.master_key {
            Some(k) => Ok(k),
            None => Err(PipelineError::NoMasterPlaylist),
        },
    }
}

} // verus!
