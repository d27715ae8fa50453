//! The failures of the install pipeline.

use vstd::prelude::*;

verus! {

/// Why an install step failed.
#[derive(Clone, Copy, Debug, PartialEq, Eq, Structural)]
pub enum InstallError {
    /// The index fetch or the archive download failed in transport.
    Network,
    /// The index body is not the expected structured document.
    Format,
    /// No release satisfies the platform and floor constraints.
    NotFound,
    /// Unpacking the archive failed.
    Extraction,
    /// A directory, file or link could not be made.
    Filesystem,
    /// The bytes written differ from the length that the server announced.
    TruncatedDownload { expected: u64, received: u64 },
}

} // verus!
