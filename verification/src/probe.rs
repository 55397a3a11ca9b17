//! What a metadata-only request tells about a resource, and the choice
//! between one stream and parallel segments that follows from it.

use crate::text::{parse_u64, parsed_u64, str_equal};
use vstd::prelude::*;

verus! {

/// A resource must be larger than this many bytes for a parallel download.
pub const PARALLEL_DOWNLOAD_THRESHOLD: u64 = 10_000_000;

/// Size and range support of a resource. A `total_size` of 0 means that the
/// size is unknown, not that the resource is empty.
#[derive(Debug, Clone, Copy, PartialEq, Eq, Structural)]
pub struct ProbeResult {
    pub total_size: u64,
    pub supports_range: bool,
}

/// The size that a `Content-Length` header gives: its number where the header
/// is there and is an unsigned 64-bit decimal number, else 0.
pub open spec fn size_of_length_header(content_length: Option<Seq<char>>) -> u64 {
    match content_length {
        Some(text) => match parsed_u64(text) {
            Some(n) => n,
            None => 0,
        },
        None => 0,
    }
}

/// Whether an `Accept-Ranges` header announces byte ranges.
pub open spec fn announces_byte_ranges(accept_ranges: Option<Seq<char>>) -> bool {
    accept_ranges == Some("bytes"@)
}

/// The view of an optional string slice.
pub open spec fn text_of(s: Option<&str>) -> Option<Seq<char>> {
    match s {
        Some(t) => Some(t@),
        None => None,
    }
}

impl ProbeResult {
    /// Reads the two header values of the answer to a metadata-only request.
    /// Each is `None` where the header is missing or is no text.
    pub fn from_headers(content_length: Option<&str>, accept_ranges: Option<&str>) -> (r: Self)
        ensures
            r.total_size == size_of_length_header(text_of(content_length)),
            r.supports_range == announces_byte_ranges(text_of(accept_ranges)),
    {
        let total_size: u64 = match content_length {
            Some(text) => match parse_u64(text) {
                Some(n) => n,
                None => 0,
            },
            None => 0,
        };
        let supports_range = match accept_ranges {
            Some(text) => str_equal(text, "bytes"),
            None => false,
        };
        ProbeResult { total_size, supports_range }
    }

    /// Whether the size of the resource is known.
    pub fn size_known(&self) -> (r: bool)
        ensures
            r == (self.total_size > 0),
    {
        self.total_size > 0
    }
}

/// How a resource is fetched.
#[derive(Debug, Clone, Copy, PartialEq, Eq, Structural)]
pub enum Strategy {
    SingleStream,
    Parallel,
}

/// Parallel segments are used only where the server supports ranges, the size
/// is known and above the threshold, more than one connection was asked for,
/// and something remains to be fetched.
pub open spec fn wants_parallel(probe: ProbeResult, parallel: usize, resume_offset: u64) -> bool {
    &&& probe.supports_range
    &&& probe.total_size > 0
    &&& parallel > 1
    &&& probe.total_size > PARALLEL_DOWNLOAD_THRESHOLD
    &&& resume_offset < probe.total_size
}

/// Chooses the strategy once, from what the probe found.
pub fn choose_strategy(probe: &ProbeResult, parallel: usize, resume_offset: u64) -> (s: Strategy)
    ensures
        s is Parallel <==> wants_parallel(*probe, parallel, resume_offset),
        probe.total_size == 0 ==> s is SingleStream,
{
    if probe.supports_range && probe.total_size > 0 && parallel > 1 && probe.total_size
        > PARALLEL_DOWNLOAD_THRESHOLD && resume_offset < probe.total_size {
        Strategy::Parallel
    } else {
        Strategy::SingleStream
    }
}

/// The bytes already there when a download starts: the length of the
/// destination where resuming was asked for and the destination exists
/// (`existing_len` is then its length), else 0.
pub fn resume_offset(continue_download: bool, existing_len: Option<u64>) -> (offset: u64)
    ensures
        offset == match existing_len {
            Some(len) => if continue_download {
                len
            } else {
                0
            },
            None => 0,
        },
{
    match existing_len {
        Some(len) => if continue_download {
            len
        } else {
            0
        },
        None => 0,
    }
}

} // verus!
