//! The ways a download can end without an artifact.

use vstd::prelude::*;

verus! {

/// Why a download stopped.
#[derive(Debug, Clone, Copy, PartialEq, Eq, Structural)]
pub enum DownloadError {
    /// A request could not be made or answered, or its status was not 2xx.
    RemoteRequest,
    /// An answer was no JSON, or lacked a field, or held one of another type.
    Decode,
    /// The answer listed no audio stream.
    EmptyStreamList,
    /// The catalog already holds the BVID.
    Duplicate,
    /// A local file or directory could not be read, made or written.
    Io,
    /// The encoder failed.
    Transcode,
    /// The temporary segment could not be removed after transcoding.
    Cleanup,
}

} // verus!
