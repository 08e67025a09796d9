use dictation_core::engine::{finish_transcription, Capability, InferenceParams, TranscriptionEngine};
use dictation_core::error::CoreError;
use dictation_core::transcript::assemble_transcript;

#[test]
fn transcribe_before_any_load_is_model_not_loaded() {
    let engine = TranscriptionEngine::new(Capability::Native);
    assert!(matches!(engine.begin_transcribe(), Err(CoreError::ModelNotLoaded)));
    assert_eq!(
        engine.begin_transcribe().unwrap_err().message(),
        "Whisper model not loaded. Call load_whisper_model first."
    );
}

#[test]
fn unload_is_idempotent() {
    let mut engine = TranscriptionEngine::new(Capability::Native);
    engine.apply_load(String::from("/tmp/model.bin"), Ok(())).unwrap();
    assert!(engine.is_loaded());
    assert!(engine.unload().is_ok());
    assert!(!engine.is_loaded());
    assert!(engine.unload().is_ok());
    assert!(!engine.is_loaded());
}

#[test]
fn load_requires_the_model_file() {
    let engine = TranscriptionEngine::new(Capability::Native);
    assert!(engine.begin_load(true).is_ok());
    match engine.begin_load(false) {
        Err(CoreError::ModelLoadFailed { cause }) => {
            assert_eq!(cause, "Model not downloaded. Call download_whisper_model first.");
        },
        _ => panic!("a missing file must refuse the load"),
    }
}

#[test]
fn successful_load_records_the_path() {
    let mut engine = TranscriptionEngine::new(Capability::Native);
    assert!(!engine.is_loaded());
    assert!(engine.model_path().is_none());
    engine.apply_load(String::from("/models/ggml-base.en.bin"), Ok(())).unwrap();
    assert!(engine.is_loaded());
    assert_eq!(engine.model_path().unwrap().as_str(), "/models/ggml-base.en.bin");
    assert!(engine.begin_transcribe().is_ok());
}

#[test]
fn failed_load_reports_the_cause_and_keeps_state() {
    let mut engine = TranscriptionEngine::new(Capability::Native);
    let outcome = engine.apply_load(
        String::from("/models/ggml-base.en.bin"),
        Err(String::from("magic number mismatch")),
    );
    match outcome {
        Err(CoreError::ModelLoadFailed { cause }) => {
            assert_eq!(cause, "magic number mismatch");
        },
        _ => panic!("a failed context creation must surface as a load error"),
    }
    assert!(!engine.is_loaded());
}

#[test]
fn unavailable_engine_refuses_everything() {
    let mut engine = TranscriptionEngine::new(Capability::Unavailable);
    assert!(matches!(engine.begin_load(true), Err(CoreError::NotSupported)));
    assert!(matches!(engine.begin_transcribe(), Err(CoreError::NotSupported)));
    assert!(matches!(
        engine.apply_load(String::from("x"), Ok(())),
        Err(CoreError::NotSupported)
    ));
    assert!(!engine.is_loaded());
    assert!(engine.unload().is_ok());
    assert_eq!(
        engine.begin_transcribe().unwrap_err().message(),
        "Native Whisper not enabled. Using WASM fallback."
    );
}

#[test]
fn standard_params_match_the_fixed_configuration() {
    let p = InferenceParams::standard();
    assert_eq!(p.language, "en");
    assert!(!p.print_special);
    assert!(!p.print_progress);
    assert!(!p.print_realtime);
    assert!(!p.print_timestamps);
    assert!(p.suppress_blank);
    assert!(!p.single_segment);
    assert_eq!(p.greedy_best_of, 1);
}

#[test]
fn segments_join_with_spaces_and_trim() {
    let segments = vec![String::from("hello"), String::from("world")];
    assert_eq!(assemble_transcript(&segments), "hello world");
}

#[test]
fn segment_whitespace_inside_is_kept() {
    let segments = vec![String::from(" Hello"), String::from(" there.")];
    assert_eq!(assemble_transcript(&segments), "Hello  there.");
}

#[test]
fn no_segments_yield_the_empty_transcript() {
    let segments: Vec<String> = vec![];
    assert_eq!(assemble_transcript(&segments), "");
}

#[test]
fn blank_segments_yield_the_empty_transcript() {
    let segments = vec![String::from("  "), String::from("\t\n")];
    assert_eq!(assemble_transcript(&segments), "");
}

#[test]
fn unicode_whitespace_is_trimmed_off_the_edges() {
    let segments = vec![String::from("\u{00A0}hello,"), String::from(" world.\u{2028}")];
    assert_eq!(assemble_transcript(&segments), "hello,  world.");
    let segments = vec![String::from("\u{3000}\u{202F}")];
    assert_eq!(assemble_transcript(&segments), "");
}

#[test]
fn finished_transcription_assembles_or_reports_the_cause() {
    let segments = vec![String::from(" hello"), String::from(" world")];
    assert_eq!(finish_transcription(Ok(segments)).unwrap(), "hello  world");
    match finish_transcription(Err(String::from("decoder gave up"))) {
        Err(CoreError::InferenceFailed { cause }) => assert_eq!(cause, "decoder gave up"),
        _ => panic!("a failed decode must surface as an inference error"),
    }
}

#[test]
fn error_messages_carry_operation_and_cause() {
    assert_eq!(CoreError::NotDownloaded.message(), "Model not downloaded");
    assert_eq!(
        CoreError::DownloadFailed { cause: String::from("timeout") }.message(),
        "Failed to download model: timeout"
    );
    assert_eq!(
        CoreError::ModelLoadFailed { cause: String::from("bad magic") }.message(),
        "Failed to load Whisper model: bad magic"
    );
    assert_eq!(
        CoreError::InferenceFailed { cause: String::from("decode") }.message(),
        "Transcription failed: decode"
    );
    assert_eq!(
        CoreError::AudioDecodeFailed { cause: String::from("no data chunk") }.message(),
        "Failed to decode audio: no data chunk"
    );
    assert_eq!(CoreError::LockPoisoned.message(), "Lock poisoned");
}
