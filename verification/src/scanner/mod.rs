//! Scans over the files of a repository once they have been read.
use vstd::prelude::*;
use crate::filesystem::walker::FileEntry;

pub mod content_scanner;
pub mod file_scanner;
pub mod reference_scanner;

verus! {

/// A file of the repository with its decoded text, without byte-order mark;
/// `None` where the file is binary or could not be read as text.  `has_bom`
/// records whether the file began with a byte-order mark.
pub struct LoadedFile {
    pub entry: FileEntry,
    pub text: Option<String>,
    pub has_bom: bool,
}

/// The relative paths of loaded files.
pub open spec fn relatives(files: Seq<LoadedFile>) -> Seq<Seq<char>> {
    files.map_values(|f: LoadedFile| f.entry.relative@)
}

/// Every text fits the index arithmetic of the analyzers.
pub open spec fn texts_fit(files: Seq<LoadedFile>) -> bool {
    forall|i: int| 0 <= i < files.len() ==> ((#[trigger] files[i]).text matches Some(t) ==> t@.len() + 1 < usize::MAX)
}

/// A copy of a file entry.
pub fn copy_entry(e: &FileEntry) -> (r: FileEntry)
    ensures
        r.path@ == e.path@,
        r.relative@ == e.relative@,
{
    FileEntry { path: e.path.clone(), relative: e.relative.clone() }
}

} // verus!
