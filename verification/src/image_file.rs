//! One planned download: its source URL, its target path, and how a single
//! attempt at it can end.

use vstd::prelude::*;

use crate::strutil::{decimal_digits, u16_to_string};
use crate::subreddit::is_success_status;

verus! {

/// A planned download: fetch `url` and write the body to `path`.
///
/// Planned only for targets that were absent at planning time; a later race
/// with another writer of the same path is out of scope.
pub struct ImageFile {
    pub url: String,
    pub path: String,
}

/// Why one download attempt failed; it aborts only that one file.
#[derive(Debug)]
pub enum DownloadError {
    /// Creating the directory or file, or writing a chunk, failed.
    IoError(String),
    /// The file request was answered with a non-2xx status.
    BadStatus(u16),
    /// The network failed mid-request or mid-stream.
    TransportError(String),
}

/// How one download attempt ended; both cases advance the progress counter.
pub enum DownloadOutcome {
    Success,
    Failure(DownloadError),
}

/// Accept exactly the 2xx statuses on a file request; anything else is a
/// `BadStatus` carrying the offending code.
pub fn check_download_status(code: u16) -> (r: Result<(), DownloadError>)
    ensures
        match r {
            Ok(_) => is_success_status(code),
            Err(e) => !is_success_status(code) && e == DownloadError::BadStatus(code),
        },
{
    if 200 <= code && code < 300 {
        Ok(())
    } else {
        Err(DownloadError::BadStatus(code))
    }
}

impl DownloadError {
    /// The error sink line for this failure.
    pub open spec fn describe_spec(&self) -> Seq<char> {
        match self {
            DownloadError::IoError(cause) => "IO error: "@ + cause@,
            DownloadError::BadStatus(code) => "HTTP error: "@ + decimal_digits(*code as nat),
            DownloadError::TransportError(cause) => "Transport error: "@ + cause@,
        }
    }

    /// Render this failure for the error sink.
    pub fn describe(&self) -> (r: String)
        ensures
            r@ == self.describe_spec(),
    {
        match self {
            DownloadError::IoError(cause) => String::from_str("IO error: ").concat(cause.as_str()),
            DownloadError::BadStatus(code) => String::from_str("HTTP error: ").concat(
                u16_to_string(*code).as_str(),
            ),
            DownloadError::TransportError(cause) => String::from_str("Transport error: ").concat(
                cause.as_str(),
            ),
        }
    }
}

} // verus!
