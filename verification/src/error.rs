//! The one error type of the crate, and what a failed HTTP exchange is known by.

use std::path::PathBuf;
use vstd::prelude::*;

verus! {

/// `std::path::PathBuf`, carried through as an opaque value.
#[verifier::external_type_specification]
#[verifier::external_body]
pub struct ExPathBuf(PathBuf);

/// `std::io::Error`, carried through as an opaque value.
#[verifier::external_type_specification]
#[verifier::external_body]
pub struct ExIoError(std::io::Error);

/// What the retry and fallback rules read from a failed HTTP exchange.
#[derive(Debug, Clone)]
pub struct NetworkFailure {
    /// The request ran into a timeout.
    pub timeout: bool,
    /// The connection could not be made.
    pub connect: bool,
    /// The body could not be read to its end.
    pub body: bool,
    /// The request could not be built at all.
    pub builder: bool,
    /// The status of the response, where one arrived.
    pub status: Option<u16>,
    /// The transport's own words for the failure.
    pub detail: String,
}

/// Everything that can go wrong between a share link and a file on disk.
#[derive(Debug)]
pub enum Error {
    /// Both a single URL and a file of URLs were given.
    InputConflict,
    /// Neither a single URL nor a file of URLs was given.
    MissingInput,
    /// A URL that is malformed or not of the expected site.
    InvalidUrl(String),
    /// A file of URLs that holds none.
    EmptyUrlFile(PathBuf),
    /// No media URL could be found in the page or the playlist.
    VideoUrlNotFound,
    /// How a run over many URLs ended.
    DownloadSummary { succeeded: usize, failed: usize },
    /// A stream that is encrypted or is not what was expected.
    UnsupportedStream(String),
    /// A failure of the file system.
    Io(std::io::Error),
    /// A failure of the HTTP exchange.
    Network(NetworkFailure),
    /// A payload that is not well-formed JSON, with the parser's words.
    Parsing(String),
}

/// Whether a server error status: 500 to 599.
pub open spec fn is_server_error(status: u16) -> bool {
    500 <= status < 600
}

/// Whether another attempt may succeed where `err` ended this one.
pub open spec fn retryable(err: Error) -> bool {
    match err {
        Error::Network(failure) => failure.timeout || failure.connect || failure.body
            || match failure.status {
            Some(status) => status == 429 || status == 403 || is_server_error(status),
            None => true,
        },
        Error::Io(_) => true,
        Error::Parsing(_) => true,
        _ => false,
    }
}

/// Whether a direct download that ended in `err` should be tried again as a
/// segmented stream.
pub open spec fn fallback_eligible(err: Error) -> bool {
    match err {
        Error::Network(failure) => failure.builder || match failure.status {
            Some(status) => status == 401 || status == 403 || status == 404 || status == 410
                || status == 423 || status == 451,
            None => false,
        },
        _ => false,
    }
}

/// Whether another attempt may succeed where `err` ended this one: a
/// network failure that is a timeout, a failed connection or a broken body,
/// that carries status 429, 403 or 5xx, or that carries no status at all;
/// any failure of the file system or of JSON parsing; nothing else.
pub fn should_retry(err: &Error) -> (r: bool)
    ensures
        r == retryable(*err),
{
    match err {
        Error::Network(failure) => {
            if failure.timeout || failure.connect || failure.body {
                return true;
            }
            match failure.status {
                Some(status) => status == 429 || status == 403 || (500 <= status && status < 600),
                None => true,
            }
        },
        Error::Io(_) => true,
        Error::Parsing(_) => true,
        Error::InvalidUrl(_) => false,
        Error::InputConflict => false,
        Error::MissingInput => false,
        Error::EmptyUrlFile(_) => false,
        Error::VideoUrlNotFound => false,
        Error::DownloadSummary { .. } => false,
        Error::UnsupportedStream(_) => false,
    }
}

/// Whether a direct download that ended in `err` should be tried again as a
/// segmented stream: a network failure with status 401, 403, 404, 410, 423
/// or 451, or one whose request could not be built.
pub fn should_try_hls_fallback(err: &Error) -> (r: bool)
    ensures
        r == fallback_eligible(*err),
{
    match err {
        Error::Network(failure) => {
            let by_status = match failure.status {
                Some(status) => status == 403 || status == 401 || status == 404 || status == 410
                    || status == 423 || status == 451,
                None => false,
            };
            by_status || failure.builder
        },
        _ => false,
    }
}

} // verus!
