//! The upstream services that can stand behind a model.

use vstd::prelude::*;

verus! {

/// The upstream service that serves a model.
#[derive(Debug, Clone, Copy, PartialEq, Eq, Structural)]
pub enum InferenceBackend {
    /// A local server that streams one JSON object per line.
    Ollama,
    /// A completion server that streams server-sent events.
    Llama,
    /// A hosted inference API, without streaming.
    HuggingFace,
    /// A chat-completion API that streams server-sent deltas.
    OpenAI,
}

/// How a streaming upstream frames its answer.
#[derive(Debug, Clone, Copy, PartialEq, Eq, Structural)]
pub enum StreamFormat {
    /// One JSON object per line, the last one marked `done`.
    TaggedLines,
    /// Server-sent events that carry `choices[0].text`.
    CompletionEvents,
    /// Server-sent events that carry `choices[0].delta.content`.
    ChatEvents,
}

/// The framing of a backend's stream; `None` for a backend that cannot stream.
pub open spec fn stream_format_of(backend: InferenceBackend) -> Option<StreamFormat> {
    match backend {
        InferenceBackend::Ollama => Some(StreamFormat::TaggedLines),
        InferenceBackend::Llama => Some(StreamFormat::CompletionEvents),
        InferenceBackend::HuggingFace => None,
        InferenceBackend::OpenAI => Some(StreamFormat::ChatEvents),
    }
}

/// The framing of a backend's stream; `None` for a backend that cannot stream.
pub fn stream_format(backend: InferenceBackend) -> (format: Option<StreamFormat>)
    ensures
        format == stream_format_of(backend),
{
    match backend {
        InferenceBackend::Ollama => Some(StreamFormat::TaggedLines),
        InferenceBackend::Llama => Some(StreamFormat::CompletionEvents),
        InferenceBackend::HuggingFace => None,
        InferenceBackend::OpenAI => Some(StreamFormat::ChatEvents),
    }
}

} // verus!
