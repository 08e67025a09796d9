use vstd::prelude::*;

verus! {

/// Failure taxonomy of the transcription core.  Every operation reports
/// failure as a value of this type; the library's verified functions never
/// panic.
#[derive(Debug)]
pub enum CoreError {
    /// The model file is not present at its resolved path.
    NotDownloaded,
    /// The network fetch, or the write of the fetched bytes, failed.
    DownloadFailed { cause: String },
    /// The model file is missing or its format could not be parsed.
    ModelLoadFailed { cause: String },
    /// Transcription was requested while no model is loaded.
    ModelNotLoaded,
    /// The underlying decoding step failed during inference.
    InferenceFailed { cause: String },
    /// The audio file is missing, unreadable, or not a valid container.
    AudioDecodeFailed { cause: String },
    /// A lock holder panicked mid-operation; engine state integrity is lost.
    LockPoisoned,
    /// The engine was constructed without native transcription support.
    NotSupported,
}

impl CoreError {
    /// The user-facing text of the error: the failed operation, and the
    /// underlying cause where one exists.
    pub open spec fn message_spec(self) -> Seq<char> {
        match self {
            CoreError::NotDownloaded => "Model not downloaded"@,
            CoreError::DownloadFailed { cause } => "Failed to download model: "@ + cause@,
            CoreError::ModelLoadFailed { cause } => "Failed to load Whisper model: "@ + cause@,
            CoreError::ModelNotLoaded => "Whisper model not loaded. Call load_whisper_model first."@,
            CoreError::InferenceFailed { cause } => "Transcription failed: "@ + cause@,
            CoreError::AudioDecodeFailed { cause } => "Failed to decode audio: "@ + cause@,
            CoreError::LockPoisoned => "Lock poisoned"@,
            CoreError::NotSupported => "Native Whisper not enabled. Using WASM fallback."@,
        }
    }

    /// Render the error as text for the caller to present.
    pub fn message(&self) -> (m: String)
        ensures
            m@ == self.message_spec(),
    {
        match self {
            CoreError::NotDownloaded => String::from_str("Model not downloaded"),
            CoreError::DownloadFailed { cause } => String::from_str("Failed to download model: ")
                .concat(cause.as_str()),
            CoreError::ModelLoadFailed { cause } => String::from_str(
                "Failed to load Whisper model: ",
            ).concat(cause.as_str()),
            CoreError::ModelNotLoaded => String::from_str(
                "Whisper model not loaded. Call load_whisper_model first.",
            ),
            CoreError::InferenceFailed { cause } => String::from_str("Transcription failed: ")
                .concat(cause.as_str()),
            CoreError::AudioDecodeFailed { cause } => String::from_str("Failed to decode audio: ")
                .concat(cause.as_str()),
            CoreError::LockPoisoned => String::from_str("Lock poisoned"),
            CoreError::NotSupported => String::from_str(
                "Native Whisper not enabled. Using WASM fallback.",
            ),
        }
    }
}

} // verus!
