//! Types around directory scanning, and the arithmetic a scan report
//! needs. Walking the tree, reading timestamps and computing checksums
//! are the caller's I/O; the library owns the shapes and the totals.

use vstd::prelude::*;
use crate::error::AppError;

verus! {

#[derive(Debug, Clone, PartialEq, Eq)]
pub struct FilePermissions {
    pub readable: bool,
    pub writable: bool,
    pub executable: bool,
}

/// One scanned file.
#[derive(Debug, Clone, PartialEq, Eq)]
pub struct FileMetadata {
    pub name: String,
    pub path: String,
    pub size: u64,
    /// Milliseconds since the Unix epoch.
    pub created: i64,
    /// Milliseconds since the Unix epoch.
    pub modified: i64,
    pub file_type: String,
    pub mime_type: Option<String>,
    pub checksum: Option<String>,
    pub permissions: FilePermissions,
}

/// What one scan of a directory tree found.
#[derive(Debug, Clone, PartialEq, Eq)]
pub struct ScanResult {
    pub files: Vec<FileMetadata>,
    pub directories: Vec<String>,
    pub total_size: u64,
    pub file_count: usize,
    pub directory_count: usize,
    /// Milliseconds the scan took.
    pub scan_duration: u64,
}

/// Scanner configuration.
#[derive(Debug, Clone, PartialEq, Eq)]
pub struct FileScanner {
    pub max_depth: Option<usize>,
}

impl FileScanner {
    pub fn new() -> (r: Result<FileScanner, AppError>)
        ensures
            r matches Ok(s) && s.max_depth == Some(10usize),
    {
        Ok(FileScanner { max_depth: Some(10) })
    }
}

/// Move, copy, and delete operations; all of them are the caller's I/O.
#[derive(Debug, Clone, PartialEq, Eq)]
pub struct FileOperations {}

impl FileOperations {
    pub fn new() -> (r: Result<FileOperations, AppError>)
        ensures
            r is Ok,
    {
        Ok(FileOperations {  })
    }
}

/// The sum of the files' sizes.
pub open spec fn sizes_sum(files: Seq<FileMetadata>) -> nat
    decreases files.len(),
{
    if files.len() == 0 {
        0
    } else {
        sizes_sum(files.drop_last()) + files.last().size as nat
    }
}

/// Assembles a scan report: the counts and the total size of what was
/// found, saturating the total at the top of its counter.
pub fn summarize_scan(files: Vec<FileMetadata>, directories: Vec<String>, scan_duration: u64) -> (r:
    ScanResult)
    ensures
        r.files == files,
        r.directories == directories,
        r.file_count == files@.len(),
        r.directory_count == directories@.len(),
        r.scan_duration == scan_duration,
        r.total_size as nat == (if sizes_sum(files@) > u64::MAX as nat {
            u64::MAX as nat
        } else {
            sizes_sum(files@)
        }),
{
    let mut total_size: u64 = 0;
    let n = files.len();
    let mut i: usize = 0;
    proof {
        assert(files@.take(0) =~= Seq::<FileMetadata>::empty());
    }
    while i < n
        invariant
            n == files@.len(),
            i <= n,
            total_size as nat == (if sizes_sum(files@.take(i as int)) > u64::MAX as nat {
                u64::MAX as nat
            } else {
                sizes_sum(files@.take(i as int))
            }),
        decreases n - i,
    {
        let size = files[i].size;
        proof {
            assert(files@.take(i as int + 1).drop_last() =~= files@.take(i as int));
            assert(files@.take(i as int + 1).last() == files@[i as int]);
        }
        total_size = if total_size > u64::MAX - size {
            u64::MAX
        } else {
            total_size + size
        };
        i += 1;
    }
    proof {
        assert(files@.take(n as int) =~= files@);
    }
    let file_count = files.len();
    let directory_count = directories.len();
    ScanResult { files, directories, total_size, file_count, directory_count, scan_duration }
}

} // verus!
