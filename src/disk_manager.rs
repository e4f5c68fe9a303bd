use vstd::prelude::*;

use crate::{PageId, PAGE_SIZE};

verus! {

#[verifier::external_type_specification]
#[verifier::external_body]
pub struct ExIoError(std::io::Error);

/// Why a disk operation failed.
#[derive(Debug)]
pub enum DiskManagerError {
    /// The file ends before the page starts.
    CouldNotRead,
    CouldNotWrite(std::io::Error),
    DiskFull,
    DiskError,
    FileNotOpen(std::io::Error),
    SeekError(std::io::Error),
    Unknown(std::io::Error),
    /// Fewer bytes than a whole page could be read.
    PageNotFound,
}

/// Where page `page_id` starts in the data file.
pub open spec fn offset_of(page_id: PageId) -> int {
    page_id * PAGE_SIZE
}

/// The byte offset of page `page_id` in the data file, where it fits in a `u64`.
pub fn page_offset(page_id: PageId) -> (r: Option<u64>)
    ensures
        offset_of(page_id) <= u64::MAX ==> r == Some(offset_of(page_id) as u64),
        offset_of(page_id) > u64::MAX ==> r is None,
{
    let id = page_id as u64;
    if id > u64::MAX / (PAGE_SIZE as u64) {
        return None;
    }
    Some(id * (PAGE_SIZE as u64))
}

/// Checks, before reading, that a file of `file_len` bytes reaches `offset`.
pub fn check_read_start(file_len: u64, offset: u64) -> (r: Result<(), DiskManagerError>)
    ensures
        r is Ok <==> offset <= file_len,
        r is Err ==> r->Err_0 is CouldNotRead,
{
    if file_len < offset {
        return Err(DiskManagerError::CouldNotRead);
    }
    Ok(())
}

/// Checks that a read delivered a whole page: a short read is an error, never
/// a page padded or cut short.
pub fn check_read_count(bytes_read: usize) -> (r: Result<(), DiskManagerError>)
    ensures
        r is Ok <==> bytes_read >= PAGE_SIZE,
        r is Err ==> r->Err_0 is PageNotFound,
{
    if bytes_read < PAGE_SIZE {
        return Err(DiskManagerError::PageNotFound);
    }
    Ok(())
}

} // verus!
