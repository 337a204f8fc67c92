//! The fatal errors of a run and the stage each one belongs to.

use crate::data::GenerationError;
use vstd::prelude::*;

verus! {

/// Why an upload request could not be built.
#[derive(Clone, Copy, Debug, PartialEq, Eq)]
pub enum BuildError {
    /// The write URL is not one that a request can be sent to.
    Url,
    /// The auth token cannot stand in a header value.
    Token,
}

/// A fatal error: the batch it belongs to is abandoned and the run ends.
#[derive(Clone, Debug, PartialEq, Eq)]
pub enum UploadError {
    /// The batch could not be generated.
    Generation(GenerationError),
    /// The compressed stream could not be finished.
    Compression { detail: String },
    /// The request could not be built from the configuration.
    BuildRequest(BuildError),
    /// The endpoint answered with an error status that no retry can mend.
    Status { code: u16 },
    /// The transport failed in a way that no retry can mend.
    Transport { detail: String },
    /// Every attempt that the retry policy allows has failed.
    RetriesExhausted { attempts: u32 },
    /// The task that was to do the work did not run to its end.
    Join { detail: String },
}

/// The stage of a unit of work at which an error arose.
#[derive(Clone, Copy, Debug, PartialEq, Eq)]
pub enum Stage {
    GenerateBatch,
    CompressData,
    BuildRequest,
    PostData,
}

impl UploadError {
    /// The stage that an error belongs to.
    pub open spec fn spec_stage(self) -> Stage {
        match self {
            UploadError::Generation(_) => Stage::GenerateBatch,
            UploadError::Join { .. } => Stage::GenerateBatch,
            UploadError::Compression { .. } => Stage::CompressData,
            UploadError::BuildRequest(_) => Stage::BuildRequest,
            UploadError::Status { .. } => Stage::PostData,
            UploadError::Transport { .. } => Stage::PostData,
            UploadError::RetriesExhausted { .. } => Stage::PostData,
        }
    }

    /// The stage at which the error arose.
    pub fn stage(&self) -> (stage: Stage)
        ensures
            stage == self.spec_stage(),
    {
        match self {
            UploadError::Generation(_) => Stage::GenerateBatch,
            UploadError::Join { .. } => Stage::GenerateBatch,
            UploadError::Compression { .. } => Stage::CompressData,
            UploadError::BuildRequest(_) => Stage::BuildRequest,
            UploadError::Status { .. } => Stage::PostData,
            UploadError::Transport { .. } => Stage::PostData,
            UploadError::RetriesExhausted { .. } => Stage::PostData,
        }
    }
}

impl Stage {
    /// The words that name a stage in an error report.
    pub open spec fn spec_label(self) -> Seq<char> {
        match self {
            Stage::GenerateBatch => "generate batch"@,
            Stage::CompressData => "compress data"@,
            Stage::BuildRequest => "build request"@,
            Stage::PostData => "post data"@,
        }
    }

    /// The words that name the stage in an error report.
    pub fn label(&self) -> (label: &'static str)
        ensures
            label@ == self.spec_label(),
    {
        match self {
            Stage::GenerateBatch => "generate batch",
            Stage::CompressData => "compress data",
            Stage::BuildRequest => "build request",
            Stage::PostData => "post data",
        }
    }
}

} // verus!
