use vstd::prelude::*;
use crate::error::CoreError;

verus! {

/// Whether the engine was built with native transcription support, or as
/// the fallback that reports every operation unsupported.  Chosen once at
/// construction time.
pub enum Capability {
    Native,
    Unavailable,
}

/// Lifecycle of the acoustic model: absent, or resident in memory
/// together with the path it was loaded from.
pub enum ModelState {
    NotLoaded,
    Loaded { path: String },
}

/// The engine's state machine over [`ModelState`].
///
/// The in-memory model context itself — created by the native library
/// when a load succeeds — lives with the caller, which must keep it in
/// step with this state: a context exists exactly while the state is
/// `Loaded`.  Every decision (may a load begin, is transcription
/// possible, what does each outcome do to the state) is made and verified
/// here; the caller only performs the calls this machine sanctions.
pub struct TranscriptionEngine {
    capability: Capability,
    state: ModelState,
}

impl TranscriptionEngine {
    /// Whether this engine can transcribe at all.
    pub closed spec fn is_native(self) -> bool {
        self.capability is Native
    }

    /// Whether a model context currently exists.
    pub closed spec fn loaded(self) -> bool {
        self.state is Loaded
    }

    /// The path the resident model was loaded from.
    pub closed spec fn loaded_path(self) -> Seq<char> {
        match self.state {
            ModelState::Loaded { path } => path@,
            ModelState::NotLoaded => Seq::empty(),
        }
    }

    /// This engine with the model context cleared — what `unload` leaves
    /// behind, whatever the state was.
    pub closed spec fn unloaded(self) -> Self {
        TranscriptionEngine { state: ModelState::NotLoaded, ..self }
    }

    /// The transcription gate: `Ok` exactly when a native engine holds a
    /// loaded model; otherwise the error that the caller reports.
    pub open spec fn transcribe_gate_spec(self) -> Result<(), CoreError> {
        if !self.is_native() {
            Err(CoreError::NotSupported)
        } else if !self.loaded() {
            Err(CoreError::ModelNotLoaded)
        } else {
            Ok(())
        }
    }

    /// A fresh engine: nothing loaded.
    pub fn new(capability: Capability) -> (e: Self)
        ensures
            e.is_native() == (capability is Native),
            !e.loaded(),
    {
        TranscriptionEngine { capability, state: ModelState::NotLoaded }
    }

    /// Whether a model context currently exists.
    pub fn is_loaded(&self) -> (r: bool)
        ensures
            r == self.loaded(),
    {
        match self.state {
            ModelState::Loaded { .. } => true,
            ModelState::NotLoaded => false,
        }
    }

    /// The path of the resident model, while one is loaded.
    pub fn model_path(&self) -> (p: Option<&String>)
        ensures
            p is Some <==> self.loaded(),
            p matches Some(q) ==> q@ == self.loaded_path(),
    {
        match &self.state {
            ModelState::Loaded { path } => Some(path),
            ModelState::NotLoaded => None,
        }
    }

    /// Decide whether a load may begin: the engine must be native and the
    /// model file must exist on disk (`file_exists` reports whether it
    /// does).  Nothing changes yet.
    pub fn begin_load(&self, file_exists: bool) -> (r: Result<(), CoreError>)
        ensures
            r is Ok <==> (self.is_native() && file_exists),
            !self.is_native() ==> r == Err::<(), CoreError>(CoreError::NotSupported),
            self.is_native() && !file_exists ==> (r matches Err(e) && e matches
                CoreError::ModelLoadFailed { cause } && cause@
                == "Model not downloaded. Call download_whisper_model first."@),
    {
        match self.capability {
            Capability::Unavailable => Err(CoreError::NotSupported),
            Capability::Native => {
                if file_exists {
                    Ok(())
                } else {
                    Err(
                        CoreError::ModelLoadFailed {
                            cause: String::from_str(
                                "Model not downloaded. Call download_whisper_model first.",
                            ),
                        },
                    )
                }
            },
        }
    }

    /// Record the outcome of the caller's attempt to create the model
    /// context from the file at `path`.  On success the resident model —
    /// if any — is replaced and the path recorded; on failure the state
    /// is untouched and the cause is reported as a load error.
    pub fn apply_load(&mut self, path: String, outcome: Result<(), String>) -> (r: Result<
        (),
        CoreError,
    >)
        ensures
            final(self).is_native() == old(self).is_native(),
            !old(self).is_native() ==> (*final(self) == *old(self) && r == Err::<
                (),
                CoreError,
            >(CoreError::NotSupported)),
            old(self).is_native() && outcome is Ok ==> (r is Ok && final(self).loaded()
                && final(self).loaded_path() == path@),
            old(self).is_native() ==> (outcome matches Err(c) ==> (*final(self) == *old(self) && (
            r matches Err(e) && e matches CoreError::ModelLoadFailed { cause } && cause == c))),
    {
        match self.capability {
            Capability::Unavailable => Err(CoreError::NotSupported),
            Capability::Native => match outcome {
                Ok(()) => {
                    self.state = ModelState::Loaded { path };
                    Ok(())
                },
                Err(c) => Err(CoreError::ModelLoadFailed { cause: c }),
            },
        }
    }

    /// The transcription gate: succeeds exactly when a native engine
    /// holds a loaded model, and otherwise reports why transcription
    /// cannot run.  The caller may perform inference only after this
    /// returns `Ok`.
    pub fn begin_transcribe(&self) -> (r: Result<(), CoreError>)
        ensures
            r == self.transcribe_gate_spec(),
    {
        match self.capability {
            Capability::Unavailable => Err(CoreError::NotSupported),
            Capability::Native => match self.state {
                ModelState::NotLoaded => Err(CoreError::ModelNotLoaded),
                ModelState::Loaded { .. } => Ok(()),
            },
        }
    }

    /// Clear the resident model and the stored path.  Always succeeds,
    /// loaded or not; the caller must drop its model context alongside.
    pub fn unload(&mut self) -> (r: Result<(), CoreError>)
        ensures
            r is Ok,
            *final(self) == old(self).unloaded(),
            !final(self).loaded(),
            final(self).is_native() == old(self).is_native(),
    {
        self.state = ModelState::NotLoaded;
        Ok(())
    }
}

/// Law: transcription before any load is refused as `ModelNotLoaded` —
/// a native engine whose model is absent (as every fresh engine's is, see
/// [`TranscriptionEngine::new`]) gates every transcription attempt on
/// that error, and never on anything worse.
pub proof fn lemma_transcribe_before_load(e: TranscriptionEngine)
    requires
        e.is_native(),
        !e.loaded(),
    ensures
        e.transcribe_gate_spec() == Err::<(), CoreError>(CoreError::ModelNotLoaded),
{
}

/// Law: `unload` is idempotent — a second unload finds the same engine a
/// first one leaves, and either way the model is gone; each call returns
/// success by [`TranscriptionEngine::unload`]'s contract.
pub proof fn lemma_unload_idempotent(e: TranscriptionEngine)
    ensures
        e.unloaded().unloaded() == e.unloaded(),
        !e.unloaded().loaded(),
        e.unloaded().is_native() == e.is_native(),
{
}

/// Conclude one transcription from the decoding step's outcome: the
/// segment texts assembled into the final transcript, or the cause
/// reported as an inference failure.
pub fn finish_transcription(outcome: Result<Vec<String>, String>) -> (r: Result<
    String,
    CoreError,
>)
    ensures
        outcome matches Ok(segments) ==> (r matches Ok(t) && t@
            == crate::transcript::transcript_spec(segments@.map_values(|s: String| s@))),
        outcome matches Err(c) ==> (r matches Err(e) && e matches CoreError::InferenceFailed {
            cause,
        } && cause == c),
{
    match outcome {
        Ok(segments) => Ok(crate::transcript::assemble_transcript(&segments)),
        Err(cause) => Err(CoreError::InferenceFailed { cause }),
    }
}

/// The decoding configuration the engine uses for every transcription
/// call: English, no console output, blank segments suppressed, the whole
/// buffer decoded in one pass with greedy best-of-1 sampling.
pub struct InferenceParams {
    pub language: String,
    pub print_special: bool,
    pub print_progress: bool,
    pub print_realtime: bool,
    pub print_timestamps: bool,
    pub suppress_blank: bool,
    pub single_segment: bool,
    pub greedy_best_of: i32,
}

impl InferenceParams {
    /// The one configuration every transcription call uses.
    pub fn standard() -> (p: Self)
        ensures
            p.language@ == "en"@,
            !p.print_special,
            !p.print_progress,
            !p.print_realtime,
            !p.print_timestamps,
            p.suppress_blank,
            !p.single_segment,
            p.greedy_best_of == 1,
    {
        InferenceParams {
            language: String::from_str("en"),
            print_special: false,
            print_progress: false,
            print_realtime: false,
            print_timestamps: false,
            suppress_blank: true,
            single_segment: false,
            greedy_best_of: 1,
        }
    }
}

} // verus!
