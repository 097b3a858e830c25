//! What a platform tells about a file.

use vstd::prelude::*;

verus! {

#[derive(Debug, Clone, PartialEq, Eq)]
pub struct FileMetadata {
    pub size: u64,
    pub modified_unix_ms: Option<u64>,
    pub stable_identity: Option<Vec<u8>>,
}

} // verus!
