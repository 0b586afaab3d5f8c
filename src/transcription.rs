//! The states and choices of a transcription job.
use vstd::prelude::*;

verus! {

/// Where a transcription job stands.
#[derive(Debug, Clone, Copy, PartialEq, Eq, Structural)]
pub enum Status {
    Transcribing,
    Diarizing,
    Summarizing,
    Done,
    Fail,
}

/// The language-model provider a note is summarized with.
#[derive(Debug, Clone, Copy, PartialEq, Eq, Structural)]
pub enum LLMProvider {
    OpenAI,
    Anthropic,
    Google,
    Ollama,
}

/// A request to transcribe an uploaded file.
#[derive(Debug)]
pub struct FilePayload {
    pub file: String,
}

/// A request to sign a storage URL for an object key.
#[derive(Debug)]
pub struct SignParams {
    pub key: String,
}

/// A presigned storage URL and the plain URL of the same object.
#[derive(Debug)]
pub struct PresignedUrlResponse {
    pub signed_url: String,
    pub url: String,
}

} // verus!
