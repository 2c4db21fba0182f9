//! The error taxonomy of the pipeline, and the status classification that
//! decides when a fetch or a download has succeeded.

use vstd::prelude::*;

verus! {

/// Why fetching the listing page failed: the transport broke down, or the
/// server answered with a status outside the success range.
#[derive(Debug, Clone, PartialEq, Eq, Structural)]
pub enum FetchError {
    Transport,
    BadStatus(u16),
}

/// True exactly for the HTTP statuses that count as success.
pub open spec fn is_success_status(status: u16) -> bool {
    200 <= status <= 299
}

/// Why downloading one file failed: the transport broke down, the server
/// answered with a status outside the success range, or the bytes could
/// not be written to disk.
#[derive(Debug, Clone, PartialEq, Eq, Structural)]
pub enum DownloadError {
    Transport,
    BadStatus(u16),
    WriteFailed,
}

/// Decides whether a listing-page response may be used: success statuses
/// pass, every other status is a `FetchError` naming it.
pub fn check_fetch_status(status: u16) -> (r: Result<(), FetchError>)
    ensures
        r is Ok <==> is_success_status(status),
        !is_success_status(status) ==> r == Err::<(), FetchError>(FetchError::BadStatus(status)),
{
    if 200 <= status && status <= 299 {
        Ok(())
    } else {
        Err(FetchError::BadStatus(status))
    }
}

/// Decides whether a file response may be written out: success statuses
/// pass, every other status is a `DownloadError` naming it.
pub fn check_download_status(status: u16) -> (r: Result<(), DownloadError>)
    ensures
        r is Ok <==> is_success_status(status),
        !is_success_status(status) ==> r == Err::<(), DownloadError>(
            DownloadError::BadStatus(status),
        ),
{
    if 200 <= status && status <= 299 {
        Ok(())
    } else {
        Err(DownloadError::BadStatus(status))
    }
}

} // verus!
