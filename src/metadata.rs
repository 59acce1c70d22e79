use vstd::prelude::*;

use crate::path::{file_name, file_name_of};
use crate::scan::FileStat;
use crate::timestamp::{resolve_created_with, resolved_created};

verus! {

/// Filesystem metadata of one image. Width and height are left for a caller that
/// decodes image headers.
pub struct ImageMetadata {
    pub path: String,
    pub name: String,
    pub size: u64,
    pub created: String,
    pub width: Option<u32>,
    pub height: Option<u32>,
}

/// The name given to a file whose path has no final component.
pub open spec fn unknown_name() -> Seq<char> {
    "unknown"@
}

/// The name shown for the file at `path`: its final component, or
/// [`unknown_name`] where it has none.
pub open spec fn display_name(path: Seq<char>) -> Seq<char> {
    match file_name_of(path) {
        Some(n) => n,
        None => unknown_name(),
    }
}

/// A path without a final component is shown under the name "unknown"; any other
/// path under that component.
pub proof fn lemma_nameless_path_is_unknown(path: Seq<char>)
    ensures
        file_name_of(path) is None ==> display_name(path) == "unknown"@,
        file_name_of(path) matches Some(n) ==> display_name(path) == n,
{
}

/// `m` describes the file at `path` with metadata `stat`, its creation time being
/// `created`.
pub open spec fn describes(m: ImageMetadata, path: Seq<char>, stat: FileStat, created: Seq<char>) -> bool {
    &&& m.path@ == path
    &&& m.name@ == display_name(path)
    &&& m.size == stat.size
    &&& m.created@ == created
    &&& m.width is None
    &&& m.height is None
}

/// The metadata of the file at `path`, whose filesystem metadata is `stat`, against
/// the current time's text `now`; the error is that of its creation clock.
pub fn get_image_metadata(path: String, stat: &FileStat, now: &String) -> (r: Result<ImageMetadata, String>)
    ensures
        match resolved_created(stat.created, stat.modified, now@) {
            Ok(t) => r matches Ok(m) && describes(m, path@, *stat, t),
            Err(e) => r matches Err(m) && m@ == e,
        },
{
    let name = match file_name(path.as_str()) {
        Some(n) => n,
        None => {
            let n = "unknown".to_owned();
            proof {
                reveal_strlit("unknown");
            }
            n
        },
    };
    let created = match resolve_created_with(&stat.created, &stat.modified, now) {
        Ok(t) => t,
        Err(e) => {
            return Err(e);
        },
    };
    Ok(ImageMetadata { path, name, size: stat.size, created, width: None, height: None })
}

} // verus!
