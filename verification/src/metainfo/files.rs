//! One file of a multi-file torrent.

use vstd::prelude::*;

verus! {

/// A file of the content: where it goes and how long it is.
#[derive(Debug, Clone)]
pub struct File {
    /// The path of the file below the torrent's directory, component by component.
    pub path: Vec<String>,
    /// The length of the file in bytes.
    pub length: usize,
    pub md5sum: Option<String>,
}

/// The lengths of `files`, added up.
pub open spec fn files_length(files: Seq<File>) -> nat
    decreases files.len(),
{
    if files.len() == 0 {
        0
    } else {
        files_length(files.drop_last()) + files.last().length as nat
    }
}

/// The lengths of the files added up, or `u64::MAX` where the sum is above it.
pub fn total_length(files: &Vec<File>) -> (total: u64)
    ensures
        total == (if files_length(files@) <= u64::MAX {
            files_length(files@)
        } else {
            u64::MAX as nat
        }),
{
    let mut total: u64 = 0;
    let mut i: usize = 0;
    while i < files.len()
        invariant
            i <= files.len(),
            total == (if files_length(files@.take(i as int)) <= u64::MAX {
                files_length(files@.take(i as int))
            } else {
                u64::MAX as nat
            }),
        decreases files.len() - i,
    {
        assert(files@.take(i + 1).drop_last() =~= files@.take(i as int));
        total = total.saturating_add(files[i].length as u64);
        i += 1;
    }
    assert(files@.take(files.len() as int) =~= files@);
    total
}

} // verus!
