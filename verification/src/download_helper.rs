//! Progress of a download.
//!
//! Fetching and writing are the caller's. What is counted here is how far a
//! download has come after each piece of it.
use vstd::prelude::*;

verus! {

/// How far a download of `total` bytes has come once a piece of `piece`
/// bytes has followed `downloaded` bytes: never further than the end.
pub open spec fn progress_after(total: u64, downloaded: u64, piece: usize) -> int {
    if downloaded + piece < total {
        downloaded + piece
    } else {
        total as int
    }
}

/// A downloader of files that reports its progress.
pub struct ImageDownLoader;

impl ImageDownLoader {
    /// The new position of a download after one more piece.
    pub fn advance(&self, total: u64, downloaded: u64, piece: usize) -> (position: u64)
        ensures
            position == progress_after(total, downloaded, piece),
            position <= total,
    {
        if total <= downloaded {
            total
        } else if (total - downloaded) as u128 <= piece as u128 {
            total
        } else {
            downloaded + piece as u64
        }
    }
}

} // verus!
