//! Failures of a run, by the step that reports them.

use vstd::prelude::*;

verus! {

/// Why a caption track could not be read.
#[derive(Debug, Clone, Copy, PartialEq, Eq, Structural)]
pub enum CaptionError {
    /// A side of a time range is not `HH:MM:SS,mmm`.
    MalformedTimestamp,
}

/// Why a remote generation job gave no result.
#[derive(Debug, Clone, PartialEq, Eq)]
pub enum PollError {
    /// The request could not be delivered, or was answered with a
    /// non-success status.
    SubmissionFailed,
    /// The answer carried neither what was asked for nor a status.
    MalformedResponse,
    /// The job succeeded and carried no result item.
    EmptyResult,
    /// The job ended in the reported status, which is neither success nor
    /// in progress.
    RemoteJobFailed(String),
    /// The job was still in progress at the last permitted read.
    PollingTimedOut,
}

/// A `PollError` as a mathematical value.
pub enum PollFailure {
    SubmissionFailed,
    MalformedResponse,
    EmptyResult,
    RemoteJobFailed(Seq<char>),
    PollingTimedOut,
}

impl View for PollError {
    type V = PollFailure;

    open spec fn view(&self) -> PollFailure {
        match self {
            PollError::SubmissionFailed => PollFailure::SubmissionFailed,
            PollError::MalformedResponse => PollFailure::MalformedResponse,
            PollError::EmptyResult => PollFailure::EmptyResult,
            PollError::RemoteJobFailed(status) => PollFailure::RemoteJobFailed(status@),
            PollError::PollingTimedOut => PollFailure::PollingTimedOut,
        }
    }
}

/// Why a stage could not hand the run on.
#[derive(Debug, Clone, Copy, PartialEq, Eq, Structural)]
pub enum StageError {
    /// No section or account could be selected.
    SourceUnavailable,
    /// The text generation gave no text.
    GenerationFailed,
    /// The speech synthesis gave no audio.
    SynthesisFailed,
    /// The audio was not transcribed.
    TranscriptionFailed,
    /// The transcript could not be turned into a caption track.
    FormatError,
    /// The caption track has a time range that cannot be read.
    MalformedTimestamp,
    /// A job of the image generation failed or timed out, or its result
    /// is no image.
    ImageGenerationFailed,
    /// The video composition gave no video.
    CompositionFailed,
}

} // verus!
