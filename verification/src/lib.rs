//! Core of a voice-dictation widget: the speech-transcription engine.
//!
//! The library covers the model store (where the acoustic model lives on
//! disk and when it must be fetched), the audio preprocessor (arbitrary
//! PCM in, 16 kHz mono out), the WAV container decoder, and the
//! transcription engine's state machine.  All I/O — the network fetch,
//! the filesystem, and the native inference call — is carried out by the
//! surrounding application; this crate makes every decision and every
//! data transformation, and each of those is verified.

pub mod audio;
pub mod engine;
pub mod error;
pub mod store;
pub mod transcript;
pub mod typing;
pub mod wav;
