use vstd::prelude::*;

verus! {

/// The extension of the file that holds a checkpoint directory as one
/// archive.
pub const ARCHIVE_EXTENSION: &'static str = "roguenet";

/// Whether a checkpoint is to be loaded as an archive rather than as a
/// directory: its path has the extension of archives.
pub fn is_archive(extension: Option<&str>) -> (archive: bool)
    ensures
        archive == (extension matches Some(e) && e@ == ARCHIVE_EXTENSION@),
{
    match extension {
        Some(e) => e.to_owned() == ARCHIVE_EXTENSION.to_owned(),
        None => false,
    }
}

} // verus!
