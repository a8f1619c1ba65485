//! The four backend adapters: where each backend is found, what is sent to it,
//! and how its answer to a request without streaming is read.

use vstd::prelude::*;
use vstd::string::StringExecFns;

use crate::backend::InferenceBackend;
use crate::json::{
    element, json_body, member, parse_bytes, parsed_view, text_of, Json, JsonView,
};
use crate::status::{
    is_success, is_success_code, BAD_GATEWAY, NOT_FOUND, NOT_IMPLEMENTED, PRECONDITION_FAILED,
};
use crate::text::{
    borrow_text, chars_of, count_words, decode_lossy, join, lemma_words_before_bound, str_chars,
    utf8_lossy, word_count,
};

verus! {

/// The name of a backend in diagnostics.
pub open spec fn label_of(backend: InferenceBackend) -> Seq<char> {
    match backend {
        InferenceBackend::Ollama => "Ollama"@,
        InferenceBackend::Llama => "llama.cpp"@,
        InferenceBackend::HuggingFace => "HuggingFace"@,
        InferenceBackend::OpenAI => "OpenAI"@,
    }
}

/// The base URL of a backend where the environment names none.
pub open spec fn default_url_of(backend: InferenceBackend) -> Seq<char> {
    match backend {
        InferenceBackend::Ollama => "http://localhost:11434"@,
        InferenceBackend::Llama => "http://localhost:8080"@,
        InferenceBackend::HuggingFace => "https://api-inference.huggingface.co"@,
        InferenceBackend::OpenAI => "https://api.openai.com/v1"@,
    }
}

/// The environment variable that overrides the base URL of a backend.
pub open spec fn url_variable_of(backend: InferenceBackend) -> Seq<char> {
    match backend {
        InferenceBackend::Ollama => "OLLAMA_URL"@,
        InferenceBackend::Llama => "LLAMA_CPP_URL"@,
        InferenceBackend::HuggingFace => "HUGGINGFACE_URL"@,
        InferenceBackend::OpenAI => "OPENAI_URL"@,
    }
}

/// The environment variable that holds the credential of a backend, for the
/// backends that take one.
pub open spec fn credential_variable_of(backend: InferenceBackend) -> Option<Seq<char>> {
    match backend {
        InferenceBackend::HuggingFace => Some("HUGGINGFACE_TOKEN"@),
        InferenceBackend::OpenAI => Some("OPENAI_API_KEY"@),
        _ => None,
    }
}

/// What is said where the credential of a backend is missing.
pub open spec fn missing_credential_text(backend: InferenceBackend) -> Seq<char> {
    match backend {
        InferenceBackend::OpenAI => "OPENAI_API_KEY not set. Set OPENAI_API_KEY environment variable."@,
        _ => "HUGGINGFACE_TOKEN not set. Set HF_TOKEN environment variable."@,
    }
}

/// The path below the base URL to which a request goes.
pub open spec fn endpoint_of(backend: InferenceBackend, model: Seq<char>) -> Seq<char> {
    match backend {
        InferenceBackend::Ollama => "/api/generate"@,
        InferenceBackend::Llama => "/v1/completions"@,
        InferenceBackend::HuggingFace => "/models/"@ + model,
        InferenceBackend::OpenAI => "/chat/completions"@,
    }
}

/// The name of a backend in diagnostics.
pub fn label(backend: InferenceBackend) -> (name: &'static str)
    ensures
        name@ == label_of(backend),
{
    match backend {
        InferenceBackend::Ollama => "Ollama",
        InferenceBackend::Llama => "llama.cpp",
        InferenceBackend::HuggingFace => "HuggingFace",
        InferenceBackend::OpenAI => "OpenAI",
    }
}

/// The base URL of a backend where the environment names none.
pub fn default_url(backend: InferenceBackend) -> (url: &'static str)
    ensures
        url@ == default_url_of(backend),
{
    match backend {
        InferenceBackend::Ollama => "http://localhost:11434",
        InferenceBackend::Llama => "http://localhost:8080",
        InferenceBackend::HuggingFace => "https://api-inference.huggingface.co",
        InferenceBackend::OpenAI => "https://api.openai.com/v1",
    }
}

/// The environment variable that overrides the base URL of a backend.
pub fn url_variable(backend: InferenceBackend) -> (name: &'static str)
    ensures
        name@ == url_variable_of(backend),
{
    match backend {
        InferenceBackend::Ollama => "OLLAMA_URL",
        InferenceBackend::Llama => "LLAMA_CPP_URL",
        InferenceBackend::HuggingFace => "HUGGINGFACE_URL",
        InferenceBackend::OpenAI => "OPENAI_URL",
    }
}

/// The environment variable that holds the credential of a backend, for the
/// backends that take one.
pub fn credential_variable(backend: InferenceBackend) -> (name: Option<&'static str>)
    ensures
        match name {
            Some(n) => credential_variable_of(backend) == Some(n@),
            None => credential_variable_of(backend) is None,
        },
{
    match backend {
        InferenceBackend::HuggingFace => Some("HUGGINGFACE_TOKEN"),
        InferenceBackend::OpenAI => Some("OPENAI_API_KEY"),
        _ => None,
    }
}

/// The base URL of a backend: the one that the environment names, or the
/// default of the backend.
pub fn get_backend_url(backend: &InferenceBackend, configured: Option<&str>) -> (url: String)
    ensures
        url@ == match configured {
            Some(value) => value@,
            None => default_url_of(*backend),
        },
{
    match configured {
        Some(value) => value.to_owned(),
        None => default_url(*backend).to_owned(),
    }
}

/// What the environment says of the backends: for each an override of its
/// base URL, and the credentials of the two that take one. It is read anew for
/// every request.
#[derive(Debug, PartialEq, Eq)]
pub struct BackendEnvironment {
    pub ollama_url: Option<String>,
    pub llama_cpp_url: Option<String>,
    pub huggingface_url: Option<String>,
    pub openai_url: Option<String>,
    pub huggingface_token: Option<String>,
    pub openai_api_key: Option<String>,
}

impl BackendEnvironment {
    /// The override of the base URL of `backend`.
    pub open spec fn url_of(&self, backend: InferenceBackend) -> Option<Seq<char>> {
        match backend {
            InferenceBackend::Ollama => chars_of(self.ollama_url),
            InferenceBackend::Llama => chars_of(self.llama_cpp_url),
            InferenceBackend::HuggingFace => chars_of(self.huggingface_url),
            InferenceBackend::OpenAI => chars_of(self.openai_url),
        }
    }

    /// The credential of `backend`.
    pub open spec fn credential_of(&self, backend: InferenceBackend) -> Option<Seq<char>> {
        match backend {
            InferenceBackend::HuggingFace => chars_of(self.huggingface_token),
            InferenceBackend::OpenAI => chars_of(self.openai_api_key),
            _ => None,
        }
    }

    /// The base URL of `backend` in this environment.
    pub open spec fn base_url_of(&self, backend: InferenceBackend) -> Seq<char> {
        match self.url_of(backend) {
            Some(url) => url,
            None => default_url_of(backend),
        }
    }

    /// The override of the base URL of `backend`.
    pub fn url(&self, backend: InferenceBackend) -> (url: Option<&str>)
        ensures
            str_chars(url) == self.url_of(backend),
    {
        match backend {
            InferenceBackend::Ollama => borrow_text(&self.ollama_url),
            InferenceBackend::Llama => borrow_text(&self.llama_cpp_url),
            InferenceBackend::HuggingFace => borrow_text(&self.huggingface_url),
            InferenceBackend::OpenAI => borrow_text(&self.openai_url),
        }
    }

    /// The credential of `backend`.
    pub fn credential(&self, backend: InferenceBackend) -> (credential: Option<&str>)
        ensures
            str_chars(credential) == self.credential_of(backend),
    {
        match backend {
            InferenceBackend::HuggingFace => borrow_text(&self.huggingface_token),
            InferenceBackend::OpenAI => borrow_text(&self.openai_api_key),
            _ => None,
        }
    }
}

/// Why a dispatch failed.
#[derive(Debug, PartialEq, Eq)]
pub enum DispatchError {
    /// No model with this id is registered.
    NotFound { model_id: String },
    /// The model is registered and not loaded.
    NotLoaded { model_id: String },
    /// The backend could not be reached, refused the request or answered with
    /// something that cannot be read.
    UpstreamFailure { backend: InferenceBackend, diagnostic: String },
    /// The backend cannot stream.
    UnsupportedOperation { backend: InferenceBackend },
    /// The credential of the backend is missing.
    ConfigurationError { backend: InferenceBackend },
}

/// The mathematical value of a [`DispatchError`].
pub enum DispatchErrorView {
    NotFound { model_id: Seq<char> },
    NotLoaded { model_id: Seq<char> },
    UpstreamFailure { backend: InferenceBackend, diagnostic: Seq<char> },
    UnsupportedOperation { backend: InferenceBackend },
    ConfigurationError { backend: InferenceBackend },
}

impl View for DispatchError {
    type V = DispatchErrorView;

    open spec fn view(&self) -> DispatchErrorView {
        match self {
            DispatchError::NotFound { model_id } => DispatchErrorView::NotFound {
                model_id: model_id@,
            },
            DispatchError::NotLoaded { model_id } => DispatchErrorView::NotLoaded {
                model_id: model_id@,
            },
            DispatchError::UpstreamFailure { backend, diagnostic } => {
                DispatchErrorView::UpstreamFailure { backend: *backend, diagnostic: diagnostic@ }
            },
            DispatchError::UnsupportedOperation { backend } => {
                DispatchErrorView::UnsupportedOperation { backend: *backend }
            },
            DispatchError::ConfigurationError { backend } => DispatchErrorView::ConfigurationError {
                backend: *backend,
            },
        }
    }
}

impl DispatchErrorView {
    /// The status code that the client sees.
    pub open spec fn status(self) -> u16 {
        match self {
            DispatchErrorView::NotFound { .. } => NOT_FOUND,
            DispatchErrorView::NotLoaded { .. } => PRECONDITION_FAILED,
            DispatchErrorView::UpstreamFailure { .. } => BAD_GATEWAY,
            DispatchErrorView::UnsupportedOperation { .. } => NOT_IMPLEMENTED,
            DispatchErrorView::ConfigurationError { .. } => BAD_GATEWAY,
        }
    }

    /// The text that the client sees.
    pub open spec fn message(self) -> Seq<char> {
        match self {
            DispatchErrorView::NotFound { model_id } => "Model '"@ + model_id
                + "' not found or not loaded. Please register and load it first."@,
            DispatchErrorView::NotLoaded { model_id } => "Model '"@ + model_id
                + "' is not loaded. Load it first."@,
            DispatchErrorView::UpstreamFailure { diagnostic, .. } => diagnostic,
            DispatchErrorView::UnsupportedOperation { backend } => "Streaming not yet supported for "@
                + label_of(backend) + " backend"@,
            DispatchErrorView::ConfigurationError { backend } => missing_credential_text(backend),
        }
    }
}

impl DispatchError {
    /// The status code that the client sees.
    pub fn status(&self) -> (code: u16)
        ensures
            code == self@.status(),
    {
        match self {
            DispatchError::NotFound { .. } => NOT_FOUND,
            DispatchError::NotLoaded { .. } => PRECONDITION_FAILED,
            DispatchError::UpstreamFailure { .. } => BAD_GATEWAY,
            DispatchError::UnsupportedOperation { .. } => NOT_IMPLEMENTED,
            DispatchError::ConfigurationError { .. } => BAD_GATEWAY,
        }
    }

    /// The text that the client sees.
    pub fn message(&self) -> (text: String)
        ensures
            text@ == self@.message(),
    {
        match self {
            DispatchError::NotFound { model_id } => join("Model '", model_id.as_str()).concat(
                "' not found or not loaded. Please register and load it first.",
            ),
            DispatchError::NotLoaded { model_id } => join("Model '", model_id.as_str()).concat(
                "' is not loaded. Load it first.",
            ),
            DispatchError::UpstreamFailure { diagnostic, .. } => diagnostic.clone(),
            DispatchError::UnsupportedOperation { backend } => join(
                "Streaming not yet supported for ",
                label(*backend),
            ).concat(" backend"),
            DispatchError::ConfigurationError { backend } => match backend {
                InferenceBackend::OpenAI => {
                    "OPENAI_API_KEY not set. Set OPENAI_API_KEY environment variable.".to_owned()
                },
                _ => "HUGGINGFACE_TOKEN not set. Set HF_TOKEN environment variable.".to_owned(),
            },
        }
    }
}

/// The body of a request to a backend, without the sampling temperature,
/// which the sender adds.
#[derive(Debug, PartialEq, Eq)]
pub enum UpstreamBody {
    /// For the tag server: `model`, `prompt`, `stream` and `options.num_predict`.
    Generate { model: String, prompt: String, stream: bool, num_predict: u32 },
    /// For the completion server: `prompt`, `n_predict` and `stream`.
    Completion { prompt: String, n_predict: u32, stream: bool },
    /// For the hosted inference API: `inputs`, `parameters.max_new_tokens` and
    /// `parameters.return_full_text`.
    HostedInference { inputs: String, max_new_tokens: u32, return_full_text: bool },
    /// For the chat-completion API: `model`, one message of the role `user`
    /// with the given content, `max_tokens` and `stream`.
    Chat { model: String, content: String, max_tokens: u32, stream: bool },
}

/// The mathematical value of an [`UpstreamBody`].
pub enum UpstreamBodyView {
    Generate { model: Seq<char>, prompt: Seq<char>, stream: bool, num_predict: u32 },
    Completion { prompt: Seq<char>, n_predict: u32, stream: bool },
    HostedInference { inputs: Seq<char>, max_new_tokens: u32, return_full_text: bool },
    Chat { model: Seq<char>, content: Seq<char>, max_tokens: u32, stream: bool },
}

impl View for UpstreamBody {
    type V = UpstreamBodyView;

    open spec fn view(&self) -> UpstreamBodyView {
        match self {
            UpstreamBody::Generate { model, prompt, stream, num_predict } => {
                UpstreamBodyView::Generate {
                    model: model@,
                    prompt: prompt@,
                    stream: *stream,
                    num_predict: *num_predict,
                }
            },
            UpstreamBody::Completion { prompt, n_predict, stream } => UpstreamBodyView::Completion {
                prompt: prompt@,
                n_predict: *n_predict,
                stream: *stream,
            },
            UpstreamBody::HostedInference { inputs, max_new_tokens, return_full_text } => {
                UpstreamBodyView::HostedInference {
                    inputs: inputs@,
                    max_new_tokens: *max_new_tokens,
                    return_full_text: *return_full_text,
                }
            },
            UpstreamBody::Chat { model, content, max_tokens, stream } => UpstreamBodyView::Chat {
                model: model@,
                content: content@,
                max_tokens: *max_tokens,
                stream: *stream,
            },
        }
    }
}

/// A request to a backend: it is posted to `url` as JSON, with `bearer` as
/// bearer credential where there is one.
#[derive(Debug, PartialEq, Eq)]
pub struct UpstreamCall {
    pub backend: InferenceBackend,
    pub url: String,
    pub bearer: Option<String>,
    pub body: UpstreamBody,
}

/// The mathematical value of an [`UpstreamCall`].
pub struct UpstreamCallView {
    pub backend: InferenceBackend,
    pub url: Seq<char>,
    pub bearer: Option<Seq<char>>,
    pub body: UpstreamBodyView,
}

impl View for UpstreamCall {
    type V = UpstreamCallView;

    open spec fn view(&self) -> UpstreamCallView {
        UpstreamCallView {
            backend: self.backend,
            url: self.url@,
            bearer: chars_of(self.bearer),
            body: self.body@,
        }
    }
}

/// The body of the request that `backend` gets for a prompt.
pub open spec fn body_for(
    backend: InferenceBackend,
    model: Seq<char>,
    prompt: Seq<char>,
    max_tokens: u32,
    stream: bool,
) -> UpstreamBodyView {
    match backend {
        InferenceBackend::Ollama => UpstreamBodyView::Generate {
            model,
            prompt,
            stream,
            num_predict: max_tokens,
        },
        InferenceBackend::Llama => UpstreamBodyView::Completion {
            prompt,
            n_predict: max_tokens,
            stream,
        },
        InferenceBackend::HuggingFace => UpstreamBodyView::HostedInference {
            inputs: prompt,
            max_new_tokens: max_tokens,
            return_full_text: false,
        },
        InferenceBackend::OpenAI => UpstreamBodyView::Chat {
            model,
            content: prompt,
            max_tokens,
            stream,
        },
    }
}

/// The bearer credential that goes with a request, or `None` where the
/// request cannot be made for want of one.
///
/// The tag server and the completion server take no credential. The hosted
/// inference API needs one. The chat-completion API needs one for a request
/// without streaming; a streaming request goes out with an empty credential
/// where none is set.
pub open spec fn bearer_for(backend: InferenceBackend, stream: bool, credential: Option<Seq<char>>) -> Option<
    Option<Seq<char>>,
> {
    match backend {
        InferenceBackend::Ollama => Some(None),
        InferenceBackend::Llama => Some(None),
        InferenceBackend::HuggingFace => match credential {
            Some(token) => Some(Some(token)),
            None => None,
        },
        InferenceBackend::OpenAI => match credential {
            Some(key) => Some(Some(key)),
            None => if stream {
                Some(Some(Seq::empty()))
            } else {
                None
            },
        },
    }
}

/// The request that `backend` gets for a prompt, or why none can be made.
///
/// A backend that cannot stream gets no streaming request; a request that
/// needs a credential is not made without it.
pub open spec fn call_for(
    backend: InferenceBackend,
    base_url: Seq<char>,
    model: Seq<char>,
    prompt: Seq<char>,
    max_tokens: u32,
    stream: bool,
    credential: Option<Seq<char>>,
) -> Result<UpstreamCallView, DispatchErrorView> {
    if stream && backend == InferenceBackend::HuggingFace {
        Err(DispatchErrorView::UnsupportedOperation { backend })
    } else {
        match bearer_for(backend, stream, credential) {
            None => Err(DispatchErrorView::ConfigurationError { backend }),
            Some(bearer) => Ok(
                UpstreamCallView {
                    backend,
                    url: base_url + endpoint_of(backend, model),
                    bearer,
                    body: body_for(backend, model, prompt, max_tokens, stream),
                },
            ),
        }
    }
}

/// The view of a request or an error.
pub open spec fn call_result_view(result: Result<UpstreamCall, DispatchError>) -> Result<
    UpstreamCallView,
    DispatchErrorView,
> {
    match result {
        Ok(call) => Ok(call@),
        Err(error) => Err(error@),
    }
}

/// The path below the base URL to which a request goes.
pub fn endpoint(backend: InferenceBackend, model: &str) -> (path: String)
    ensures
        path@ == endpoint_of(backend, model@),
{
    match backend {
        InferenceBackend::Ollama => "/api/generate".to_owned(),
        InferenceBackend::Llama => "/v1/completions".to_owned(),
        InferenceBackend::HuggingFace => join("/models/", model),
        InferenceBackend::OpenAI => "/chat/completions".to_owned(),
    }
}

/// Builds the request that `backend` gets for a prompt.
pub fn plan_call(
    backend: InferenceBackend,
    base_url: &str,
    model: &str,
    prompt: &str,
    max_tokens: u32,
    stream: bool,
    credential: Option<&str>,
) -> (result: Result<UpstreamCall, DispatchError>)
    ensures
        call_result_view(result) == call_for(
            backend,
            base_url@,
            model@,
            prompt@,
            max_tokens,
            stream,
            str_chars(credential),
        ),
{
    let bearer: Option<String> = match backend {
        InferenceBackend::Ollama => None,
        InferenceBackend::Llama => None,
        InferenceBackend::HuggingFace => {
            if stream {
                return Err(DispatchError::UnsupportedOperation { backend });
            }
            match credential {
                Some(token) => Some(token.to_owned()),
                None => {
                    return Err(DispatchError::ConfigurationError { backend });
                },
            }
        },
        InferenceBackend::OpenAI => match credential {
            Some(key) => Some(key.to_owned()),
            None => {
                if !stream {
                    return Err(DispatchError::ConfigurationError { backend });
                }
                Some(String::new())
            },
        },
    };
    let body = match backend {
        InferenceBackend::Ollama => UpstreamBody::Generate {
            model: model.to_owned(),
            prompt: prompt.to_owned(),
            stream,
            num_predict: max_tokens,
        },
        InferenceBackend::Llama => UpstreamBody::Completion {
            prompt: prompt.to_owned(),
            n_predict: max_tokens,
            stream,
        },
        InferenceBackend::HuggingFace => UpstreamBody::HostedInference {
            inputs: prompt.to_owned(),
            max_new_tokens: max_tokens,
            return_full_text: false,
        },
        InferenceBackend::OpenAI => UpstreamBody::Chat {
            model: model.to_owned(),
            content: prompt.to_owned(),
            max_tokens,
            stream,
        },
    };
    let path = endpoint(backend, model);
    Ok(UpstreamCall { backend, url: join(base_url, path.as_str()), bearer, body })
}

/// What a backend generated for a prompt.
#[derive(Debug, PartialEq, Eq)]
pub struct Completion {
    pub text: String,
    /// The number of tokens that the text counts for.
    pub tokens: u32,
}

/// The mathematical value of a [`Completion`].
pub struct CompletionView {
    pub text: Seq<char>,
    pub tokens: u32,
}

impl View for Completion {
    type V = CompletionView;

    open spec fn view(&self) -> CompletionView {
        CompletionView { text: self.text@, tokens: self.tokens }
    }
}

/// The view of a completion that may be absent.
pub open spec fn completion_view(found: Option<Completion>) -> Option<CompletionView> {
    match found {
        Some(completion) => Some(completion@),
        None => None,
    }
}

/// The number of whitespace-separated words of `text` as a `u32`: the count
/// itself below 2^32, and its remainder modulo 2^32 from there on.
pub open spec fn words_of(text: Seq<char>) -> u32 {
    (word_count(text) % 0x1_0000_0000) as u32
}

/// Below 2^32 characters the words of a text are counted exactly.
pub proof fn lemma_words_of_exact(text: Seq<char>)
    requires
        text.len() <= u32::MAX,
    ensures
        words_of(text) == word_count(text),
{
    lemma_words_before_bound(text, text.len());
}

/// A text with its words counted as its tokens.
pub open spec fn counted(text: Seq<char>) -> CompletionView {
    CompletionView { text, tokens: words_of(text) }
}

/// What a tag server generated: the `response` of an object that holds a string
/// `response` and a boolean `done`, with its words counted.
pub open spec fn tagged_completion(document: JsonView) -> Option<CompletionView> {
    match (document.member("response"@).as_text(), document.member("done"@).as_bool()) {
        (Some(text), Some(_)) => Some(counted(text)),
        _ => None,
    }
}

/// What a completion server generated: the string `choices[0].text`, with its
/// words counted.
pub open spec fn plain_completion(document: JsonView) -> Option<CompletionView> {
    match document.member("choices"@).element(0).member("text"@).as_text() {
        Some(text) => Some(counted(text)),
        None => None,
    }
}

/// What a hosted inference API generated: the string `generated_text` of the
/// first element of an array, or that element where it is itself a string;
/// with its words counted.
pub open spec fn hosted_completion(document: JsonView) -> Option<CompletionView> {
    match document.element(0).member("generated_text"@).as_text() {
        Some(text) => Some(counted(text)),
        None => match document.element(0).as_text() {
            Some(text) => Some(counted(text)),
            None => None,
        },
    }
}

/// What a chat-completion API generated: the string
/// `choices[0].message.content`, with `usage.completion_tokens` as the number
/// of its tokens.
pub open spec fn chat_completion(document: JsonView) -> Option<CompletionView> {
    match (
        document.member("choices"@).element(0).member("message"@).member("content"@).as_text(),
        document.member("usage"@).member("completion_tokens"@).as_u32(),
    ) {
        (Some(text), Some(tokens)) => Some(CompletionView { text, tokens }),
        _ => None,
    }
}

/// What `backend` generated according to the document that it answered with.
pub open spec fn completion_of(backend: InferenceBackend, document: JsonView) -> Option<
    CompletionView,
> {
    match backend {
        InferenceBackend::Ollama => tagged_completion(document),
        InferenceBackend::Llama => plain_completion(document),
        InferenceBackend::HuggingFace => hosted_completion(document),
        InferenceBackend::OpenAI => chat_completion(document),
    }
}

/// A text with its words counted as its tokens.
pub fn count_tokens(text: &str) -> (completion: Completion)
    ensures
        completion@ == counted(text@),
{
    Completion { text: text.to_owned(), tokens: count_words(text) }
}

/// Reads what a tag server generated.
pub fn read_tagged_completion(document: &Json) -> (found: Option<Completion>)
    ensures
        completion_view(found) == tagged_completion(document@),
{
    let text = text_of(member(Some(document), "response"));
    let done = match document.get("done") {
        Some(value) => value.as_bool(),
        None => None,
    };
    match (text, done) {
        (Some(text), Some(_)) => Some(count_tokens(text)),
        _ => None,
    }
}

/// Reads what a completion server generated.
pub fn read_plain_completion(document: &Json) -> (found: Option<Completion>)
    ensures
        completion_view(found) == plain_completion(document@),
{
    let choices = member(Some(document), "choices");
    let choice = element(choices, 0);
    match text_of(member(choice, "text")) {
        Some(text) => Some(count_tokens(text)),
        None => None,
    }
}

/// Reads what a hosted inference API generated.
pub fn read_hosted_completion(document: &Json) -> (found: Option<Completion>)
    ensures
        completion_view(found) == hosted_completion(document@),
{
    let first = element(Some(document), 0);
    match text_of(member(first, "generated_text")) {
        Some(text) => Some(count_tokens(text)),
        None => match text_of(first) {
            Some(text) => Some(count_tokens(text)),
            None => None,
        },
    }
}

/// Reads what a chat-completion API generated.
pub fn read_chat_completion(document: &Json) -> (found: Option<Completion>)
    ensures
        completion_view(found) == chat_completion(document@),
{
    let choices = member(Some(document), "choices");
    let choice = element(choices, 0);
    let message = member(choice, "message");
    let text = text_of(member(message, "content"));
    let usage = member(Some(document), "usage");
    let tokens = match member(usage, "completion_tokens") {
        Some(value) => value.as_u32(),
        None => None,
    };
    match (text, tokens) {
        (Some(text), Some(tokens)) => Some(Completion { text: text.to_owned(), tokens }),
        _ => None,
    }
}

/// Reads what `backend` generated from the document that it answered with.
pub fn read_completion(backend: InferenceBackend, document: &Json) -> (found: Option<Completion>)
    ensures
        completion_view(found) == completion_of(backend, document@),
{
    match backend {
        InferenceBackend::Ollama => read_tagged_completion(document),
        InferenceBackend::Llama => read_plain_completion(document),
        InferenceBackend::HuggingFace => read_hosted_completion(document),
        InferenceBackend::OpenAI => read_chat_completion(document),
    }
}

/// How the exchange with a backend went.
#[derive(Debug, PartialEq, Eq)]
pub enum UpstreamOutcome {
    /// The request could not be sent, or no answer came.
    SendFailed { detail: String },
    /// An answer came, with a status and a body. `status_text` is the status
    /// as the client is to see it.
    Answered { status: u16, status_text: String, body: Vec<u8> },
    /// An answer came with a status, and its body could not be read to the end.
    ReadFailed { status: u16, status_text: String, detail: String },
}

/// The mathematical value of an [`UpstreamOutcome`].
pub enum UpstreamOutcomeView {
    SendFailed { detail: Seq<char> },
    Answered { status: u16, status_text: Seq<char>, body: Seq<u8> },
    ReadFailed { status: u16, status_text: Seq<char>, detail: Seq<char> },
}

impl View for UpstreamOutcome {
    type V = UpstreamOutcomeView;

    open spec fn view(&self) -> UpstreamOutcomeView {
        match self {
            UpstreamOutcome::SendFailed { detail } => UpstreamOutcomeView::SendFailed {
                detail: detail@,
            },
            UpstreamOutcome::Answered { status, status_text, body } => {
                UpstreamOutcomeView::Answered {
                    status: *status,
                    status_text: status_text@,
                    body: body@,
                }
            },
            UpstreamOutcome::ReadFailed { status, status_text, detail } => {
                UpstreamOutcomeView::ReadFailed {
                    status: *status,
                    status_text: status_text@,
                    detail: detail@,
                }
            },
        }
    }
}

/// What is said of a request that could not be sent.
pub open spec fn send_failure_text(backend: InferenceBackend, detail: Seq<char>) -> Seq<char> {
    label_of(backend) + " request failed: "@ + detail
}

/// What is said of an answer that cannot be read as JSON.
pub open spec fn parse_failure_text(backend: InferenceBackend, detail: Seq<char>) -> Seq<char> {
    "Failed to parse "@ + label_of(backend) + " response: "@ + detail
}

/// What is said of an answer with a status that is no success. The hosted
/// inference API and the chat-completion API have the text of the answer's
/// body added.
pub open spec fn rejection_text(
    backend: InferenceBackend,
    status_text: Seq<char>,
    body_text: Seq<char>,
) -> Seq<char> {
    let head = label_of(backend) + " API error: "@ + status_text;
    match backend {
        InferenceBackend::HuggingFace => head + " - "@ + body_text,
        InferenceBackend::OpenAI => head + " - "@ + body_text,
        _ => head,
    }
}

/// What is said of a JSON answer that lacks what the backend should have sent.
pub open spec fn shape_failure_text(backend: InferenceBackend) -> Seq<char> {
    match backend {
        InferenceBackend::Ollama => parse_failure_text(
            backend,
            "expected a string `response` and a boolean `done`"@,
        ),
        InferenceBackend::Llama => "Invalid llama.cpp response format"@,
        InferenceBackend::HuggingFace => "Invalid HuggingFace response format"@,
        InferenceBackend::OpenAI => parse_failure_text(
            backend,
            "expected `choices[0].message.content` and `usage.completion_tokens`"@,
        ),
    }
}

/// An upstream failure of `backend` with the given diagnostic.
pub open spec fn failure(backend: InferenceBackend, diagnostic: Seq<char>) -> DispatchErrorView {
    DispatchErrorView::UpstreamFailure { backend, diagnostic }
}

/// What `backend` generated according to a parsed answer, or the failure
/// that the answer amounts to.
pub open spec fn parsed_reply(
    backend: InferenceBackend,
    parsed: Result<JsonView, Seq<char>>,
) -> Result<CompletionView, DispatchErrorView> {
    match parsed {
        Err(detail) => Err(failure(backend, parse_failure_text(backend, detail))),
        Ok(document) => match completion_of(backend, document) {
            Some(completion) => Ok(completion),
            None => Err(failure(backend, shape_failure_text(backend))),
        },
    }
}

/// What `backend` generated according to the exchange with it, or the
/// failure that the exchange amounts to.
///
/// Only an answer with a status of success and a body that is one JSON
/// document of the backend's form gives a completion. A status that is no
/// success is reported with the body decoded lossily, and with no text for a
/// body that could not be read. A body that could not be read under a status of
/// success counts as one that cannot be parsed.
pub open spec fn reply_of(backend: InferenceBackend, outcome: UpstreamOutcomeView) -> Result<
    CompletionView,
    DispatchErrorView,
> {
    match outcome {
        UpstreamOutcomeView::SendFailed { detail } => Err(
            failure(backend, send_failure_text(backend, detail)),
        ),
        UpstreamOutcomeView::ReadFailed { status, status_text, detail } => if !is_success_code(
            status,
        ) {
            Err(failure(backend, rejection_text(backend, status_text, Seq::empty())))
        } else {
            Err(failure(backend, parse_failure_text(backend, detail)))
        },
        UpstreamOutcomeView::Answered { status, status_text, body } => if !is_success_code(
            status,
        ) {
            Err(failure(backend, rejection_text(backend, status_text, utf8_lossy(body))))
        } else {
            parsed_reply(backend, json_body(body))
        },
    }
}

/// The view of a completion or an error.
pub open spec fn reply_view(result: Result<Completion, DispatchError>) -> Result<
    CompletionView,
    DispatchErrorView,
> {
    match result {
        Ok(completion) => Ok(completion@),
        Err(error) => Err(error@),
    }
}

/// An upstream failure of `backend` with the given diagnostic.
fn fail(backend: InferenceBackend, diagnostic: String) -> (error: DispatchError)
    ensures
        error@ == failure(backend, diagnostic@),
{
    DispatchError::UpstreamFailure { backend, diagnostic }
}

/// Says that an answer cannot be read as JSON.
fn parse_failure(backend: InferenceBackend, detail: &str) -> (text: String)
    ensures
        text@ == parse_failure_text(backend, detail@),
{
    join("Failed to parse ", label(backend)).concat(" response: ").concat(detail)
}

/// Says that a JSON answer lacks what the backend should have sent.
fn shape_failure(backend: InferenceBackend) -> (text: String)
    ensures
        text@ == shape_failure_text(backend),
{
    match backend {
        InferenceBackend::Ollama => parse_failure(
            backend,
            "expected a string `response` and a boolean `done`",
        ),
        InferenceBackend::Llama => "Invalid llama.cpp response format".to_owned(),
        InferenceBackend::HuggingFace => "Invalid HuggingFace response format".to_owned(),
        InferenceBackend::OpenAI => parse_failure(
            backend,
            "expected `choices[0].message.content` and `usage.completion_tokens`",
        ),
    }
}

/// Says that an answer came with a status that is no success.
fn rejection(backend: InferenceBackend, status_text: &str, body_text: &str) -> (text: String)
    ensures
        text@ == rejection_text(backend, status_text@, body_text@),
{
    let head = join(label(backend), " API error: ").concat(status_text);
    match backend {
        InferenceBackend::HuggingFace | InferenceBackend::OpenAI => head.concat(" - ").concat(
            body_text,
        ),
        _ => head,
    }
}

/// Reads a parsed answer of `backend`.
pub fn read_parsed_reply(backend: InferenceBackend, parsed: Result<Json, String>) -> (result: Result<
    Completion,
    DispatchError,
>)
    ensures
        reply_view(result) == parsed_reply(backend, parsed_view(parsed)),
{
    match parsed {
        Err(detail) => Err(fail(backend, parse_failure(backend, detail.as_str()))),
        Ok(document) => match read_completion(backend, &document) {
            Some(completion) => Ok(completion),
            None => Err(fail(backend, shape_failure(backend))),
        },
    }
}

/// Reads the exchange with `backend`: what it generated, or the failure that
/// the exchange amounts to.
pub fn read_reply(backend: InferenceBackend, outcome: &UpstreamOutcome) -> (result: Result<
    Completion,
    DispatchError,
>)
    ensures
        reply_view(result) == reply_of(backend, outcome@),
{
    match outcome {
        UpstreamOutcome::SendFailed { detail } => Err(
            fail(backend, join(label(backend), " request failed: ").concat(detail.as_str())),
        ),
        UpstreamOutcome::ReadFailed { status, status_text, detail } => {
            if !is_success(*status) {
                let nothing = String::new();
                Err(fail(backend, rejection(backend, status_text.as_str(), nothing.as_str())))
            } else {
                Err(fail(backend, parse_failure(backend, detail.as_str())))
            }
        },
        UpstreamOutcome::Answered { status, status_text, body } => {
            if !is_success(*status) {
                let shown = decode_lossy(body.as_slice());
                Err(fail(backend, rejection(backend, status_text.as_str(), shown.as_str())))
            } else {
                read_parsed_reply(backend, parse_bytes(body.as_slice()))
            }
        },
    }
}

} // verus!
