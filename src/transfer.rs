use vstd::prelude::*;

use crate::path::{file_name, file_name_of, join, joined_of};

verus! {

/// Why a copy into a folder was refused or failed.
pub enum TransferError {
    /// Nothing exists at the source path.
    SourceNotFound,
    /// The target folder is not a directory.
    TargetNotFound,
    /// The source path has no final component to name the copy by.
    InvalidSourcePath,
    /// Something already exists where the copy would go; it is never overwritten.
    TargetAlreadyExists,
    /// Copying the contents failed; the text says why.
    CopyIOError(String),
}

impl TransferError {
    /// The human-readable text of the error.
    pub fn message(&self) -> (r: String)
        ensures
            r@ == match self {
                TransferError::SourceNotFound => "Source file does not exist"@,
                TransferError::TargetNotFound => "Target folder does not exist"@,
                TransferError::InvalidSourcePath => "Invalid source path"@,
                TransferError::TargetAlreadyExists => "Target file already exists"@,
                TransferError::CopyIOError(m) => m@,
            },
    {
        let r = match self {
            TransferError::SourceNotFound => "Source file does not exist".to_owned(),
            TransferError::TargetNotFound => "Target folder does not exist".to_owned(),
            TransferError::InvalidSourcePath => "Invalid source path".to_owned(),
            TransferError::TargetAlreadyExists => "Target file already exists".to_owned(),
            TransferError::CopyIOError(m) => {
                return m.clone();
            },
        };
        proof {
            reveal_strlit("Source file does not exist");
            reveal_strlit("Target folder does not exist");
            reveal_strlit("Invalid source path");
            reveal_strlit("Target file already exists");
        }
        r
    }
}

/// Where a copy of `source` into `folder` goes: the folder joined with the source's
/// final component, where it has one.
pub open spec fn destination_of(source: Seq<char>, folder: Seq<char>) -> Option<Seq<char>> {
    match file_name_of(source) {
        Some(n) => Some(joined_of(folder, n)),
        None => None,
    }
}

/// The checks made before any copy, in order: the source exists, the target is a
/// directory, and the source has a name. When all pass, the result is the path the
/// copy will take.
pub fn copy_destination(source_path: &str, target_folder: &str, source_exists: bool, target_is_dir: bool) -> (r: Result<String, TransferError>)
    ensures
        !source_exists ==> r matches Err(TransferError::SourceNotFound),
        source_exists && !target_is_dir ==> r matches Err(TransferError::TargetNotFound),
        source_exists && target_is_dir ==> match destination_of(source_path@, target_folder@) {
            Some(d) => r matches Ok(p) && p@ == d,
            None => r matches Err(TransferError::InvalidSourcePath),
        },
{
    if !source_exists {
        return Err(TransferError::SourceNotFound);
    }
    if !target_is_dir {
        return Err(TransferError::TargetNotFound);
    }
    match file_name(source_path) {
        Some(n) => Ok(join(target_folder, n.as_str())),
        None => Err(TransferError::InvalidSourcePath),
    }
}

/// The four checks of a copy, in order, on what the filesystem reported: the source
/// exists, the target is a directory, the source has a name, and nothing stands at
/// the destination. `Ok` holds the destination when all pass.
pub open spec fn checked_copy(
    source: Seq<char>,
    folder: Seq<char>,
    source_exists: bool,
    target_is_dir: bool,
    destination_exists: bool,
) -> Result<Seq<char>, TransferFailure> {
    if !source_exists {
        Err(TransferFailure::SourceNotFound)
    } else if !target_is_dir {
        Err(TransferFailure::TargetNotFound)
    } else {
        match destination_of(source, folder) {
            None => Err(TransferFailure::InvalidSourcePath),
            Some(d) => if destination_exists {
                Err(TransferFailure::TargetAlreadyExists)
            } else {
                Ok(d)
            },
        }
    }
}

/// The mathematical value of a [`TransferError`].
pub enum TransferFailure {
    SourceNotFound,
    TargetNotFound,
    InvalidSourcePath,
    TargetAlreadyExists,
    CopyIOError(Seq<char>),
}

impl View for TransferError {
    type V = TransferFailure;

    open spec fn view(&self) -> TransferFailure {
        match self {
            TransferError::SourceNotFound => TransferFailure::SourceNotFound,
            TransferError::TargetNotFound => TransferFailure::TargetNotFound,
            TransferError::InvalidSourcePath => TransferFailure::InvalidSourcePath,
            TransferError::TargetAlreadyExists => TransferFailure::TargetAlreadyExists,
            TransferError::CopyIOError(m) => TransferFailure::CopyIOError(m@),
        }
    }
}

/// The mathematical value of a copy step's result.
pub open spec fn outcome_view(r: Result<String, TransferError>) -> Result<Seq<char>, TransferFailure> {
    match r {
        Ok(t) => Ok(t@),
        Err(e) => Err(e@),
    }
}

/// Runs the four checks of a copy in order and gives the first that fails, or the
/// destination the copy may go to. `destination_exists` is what the filesystem
/// reported for the destination that [`copy_destination`] gave.
pub fn check_copy(
    source_path: &str,
    target_folder: &str,
    source_exists: bool,
    target_is_dir: bool,
    destination_exists: bool,
) -> (r: Result<String, TransferError>)
    ensures
        outcome_view(r) == checked_copy(source_path@, target_folder@, source_exists, target_is_dir, destination_exists),
{
    let destination = copy_destination(source_path, target_folder, source_exists, target_is_dir)?;
    if destination_exists {
        Err(TransferError::TargetAlreadyExists)
    } else {
        Ok(destination)
    }
}

/// The confirmation given after a copy.
pub open spec fn copied_text() -> Seq<char> {
    "File copied successfully"@
}

/// The whole result of a copy request: the first failed check, or else the result
/// of the copy itself.
pub open spec fn copy_request_outcome(
    source: Seq<char>,
    folder: Seq<char>,
    source_exists: bool,
    target_is_dir: bool,
    destination_exists: bool,
    copied: Result<u64, String>,
) -> Result<Seq<char>, TransferFailure> {
    match checked_copy(source, folder, source_exists, target_is_dir, destination_exists) {
        Err(e) => Err(e),
        Ok(_) => match copied {
            Ok(_) => Ok(copied_text()),
            Err(e) => Err(TransferFailure::CopyIOError(e@)),
        },
    }
}

/// The result of a copy request, given what the filesystem reported before the copy
/// and what the copy itself returned (bytes copied, or the I/O error's text). The
/// copy's result counts only when every check passed: success is never reported
/// for a request that failed a check.
pub fn finish_copy(
    source_path: &str,
    target_folder: &str,
    source_exists: bool,
    target_is_dir: bool,
    destination_exists: bool,
    copied: Result<u64, String>,
) -> (r: Result<String, TransferError>)
    ensures
        outcome_view(r) == copy_request_outcome(
            source_path@,
            target_folder@,
            source_exists,
            target_is_dir,
            destination_exists,
            copied,
        ),
{
    check_copy(source_path, target_folder, source_exists, target_is_dir, destination_exists)?;
    match copied {
        Ok(_) => {
            let t = "File copied successfully".to_owned();
            proof {
                reveal_strlit("File copied successfully");
            }
            Ok(t)
        },
        Err(e) => Err(TransferError::CopyIOError(e)),
    }
}

/// A copy request succeeds exactly when the source existed, the target was a
/// directory, the source had a name, nothing stood at its destination, and the copy
/// itself went through; a request that finds its destination taken fails with
/// [`TransferFailure::TargetAlreadyExists`] whatever else holds after the first
/// three checks.
pub proof fn lemma_copy_success_needs_every_check(
    source: Seq<char>,
    folder: Seq<char>,
    source_exists: bool,
    target_is_dir: bool,
    destination_exists: bool,
    copied: Result<u64, String>,
)
    ensures
        copy_request_outcome(source, folder, source_exists, target_is_dir, destination_exists, copied) is Ok
            <==> (source_exists && target_is_dir && destination_of(source, folder) is Some
            && !destination_exists && copied is Ok),
        source_exists && target_is_dir && destination_of(source, folder) is Some && destination_exists
            ==> copy_request_outcome(source, folder, source_exists, target_is_dir, destination_exists, copied)
            == Err::<Seq<char>, TransferFailure>(TransferFailure::TargetAlreadyExists),
{
}

} // verus!
