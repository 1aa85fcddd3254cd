//! The ways an update run can fail.

use vstd::prelude::*;

verus! {

/// Why an update run was abandoned.
#[derive(Clone, Copy, Debug, PartialEq, Eq, Structural)]
pub enum UpdateError {
    /// A network request could not be completed.
    Transport,
    /// The release service answered, but not with a usable release record.
    Parse,
    /// The release offers no asset for this platform.
    NoMatchingAsset,
    /// A file name has too few `-`-separated fields to hold a version token.
    MalformedFilename,
    /// Reading or writing the local file system failed.
    Io,
}

/// Exit status of a run that found the installation up to date or completed
/// its download.
pub const EXIT_SUCCESS: u8 = 0;

/// Exit status reserved for a release without an asset for this platform.
pub const EXIT_NO_MATCHING_ASSET: u8 = 1;

/// Exit status of every other failure.
pub const EXIT_FAILURE: u8 = 2;

/// The exit status that reports the outcome of a run.
pub open spec fn exit_code_of(outcome: Result<(), UpdateError>) -> u8 {
    match outcome {
        Ok(_) => EXIT_SUCCESS,
        Err(UpdateError::NoMatchingAsset) => EXIT_NO_MATCHING_ASSET,
        Err(_) => EXIT_FAILURE,
    }
}

/// Maps the outcome of a run to the status the process exits with: zero for
/// success, and among the failures a status of its own for a release that
/// lacks a platform asset.
pub fn exit_code(outcome: &Result<(), UpdateError>) -> (code: u8)
    ensures
        code == exit_code_of(*outcome),
        code == EXIT_SUCCESS <==> outcome is Ok,
        code == EXIT_NO_MATCHING_ASSET <==> *outcome == Err::<(), UpdateError>(
            UpdateError::NoMatchingAsset,
        ),
{
    match outcome {
        Ok(_) => EXIT_SUCCESS,
        Err(UpdateError::NoMatchingAsset) => EXIT_NO_MATCHING_ASSET,
        Err(_) => EXIT_FAILURE,
    }
}

impl UpdateError {
    /// The text shown to the operator for this failure.
    pub open spec fn message_text(self) -> Seq<char> {
        match self {
            UpdateError::Transport => "network request failed"@,
            UpdateError::Parse => "release record could not be read"@,
            UpdateError::NoMatchingAsset => "release has no asset for this platform"@,
            UpdateError::MalformedFilename => "file name holds no version token"@,
            UpdateError::Io => "file system operation failed"@,
        }
    }

    /// A one-line description naming the stage that failed.
    pub fn message(&self) -> (text: &'static str)
        ensures
            text@ == self.message_text(),
    {
        match self {
            UpdateError::Transport => "network request failed",
            UpdateError::Parse => "release record could not be read",
            UpdateError::NoMatchingAsset => "release has no asset for this platform",
            UpdateError::MalformedFilename => "file name holds no version token",
            UpdateError::Io => "file system operation failed",
        }
    }
}

} // verus!
