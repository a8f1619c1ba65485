//! The dispatch of a request: from the registry to the request that goes to
//! the backend, and from the backend's answer to the canonical result.

use vstd::prelude::*;

use crate::adapters::{
    call_for, call_result_view, get_backend_url, plan_call, read_reply,
    reply_of, words_of, BackendEnvironment, CompletionView, DispatchError, DispatchErrorView,
    UpstreamCall, UpstreamCallView, UpstreamOutcome, UpstreamOutcomeView,
};
use crate::backend::{stream_format, stream_format_of, InferenceBackend};
use crate::json::json_body;
use crate::registry::{
    lemma_find_model, resolve_outcome, AppState, ModelEntryView, RegistryError,
};
use crate::stream::{StreamNormalizer, StreamState};

verus! {

/// Token budget of a request that names none.
pub fn default_max_tokens() -> (n: u32)
    ensures
        n == 512,
{
    512
}

/// A request for a generation, without the sampling temperature, which stays
/// with the sender.
#[derive(Debug, PartialEq, Eq)]
pub struct InferenceRequest {
    pub model_id: String,
    pub prompt: String,
    pub max_tokens: u32,
}

/// The mathematical value of an [`InferenceRequest`].
pub struct InferenceRequestView {
    pub model_id: Seq<char>,
    pub prompt: Seq<char>,
    pub max_tokens: u32,
}

impl View for InferenceRequest {
    type V = InferenceRequestView;

    open spec fn view(&self) -> InferenceRequestView {
        InferenceRequestView {
            model_id: self.model_id@,
            prompt: self.prompt@,
            max_tokens: self.max_tokens,
        }
    }
}

/// The canonical result of a generation.
#[derive(Debug, PartialEq, Eq)]
pub struct InferenceResponse {
    pub model_id: String,
    pub text: String,
    pub tokens_generated: u32,
    pub finish_reason: String,
}

/// The mathematical value of an [`InferenceResponse`].
pub struct InferenceResponseView {
    pub model_id: Seq<char>,
    pub text: Seq<char>,
    pub tokens_generated: u32,
    pub finish_reason: Seq<char>,
}

impl View for InferenceResponse {
    type V = InferenceResponseView;

    open spec fn view(&self) -> InferenceResponseView {
        InferenceResponseView {
            model_id: self.model_id@,
            text: self.text@,
            tokens_generated: self.tokens_generated,
            finish_reason: self.finish_reason@,
        }
    }
}

/// The request that goes to the backend for `request`, or why none goes.
///
/// A model that is not registered, or registered and not loaded, gets no
/// request made. For a loaded model the request is that of its backend, at
/// the base URL and with the credential that the environment has for it.
pub open spec fn dispatch_plan(
    entries: Seq<ModelEntryView>,
    environment: BackendEnvironment,
    request: InferenceRequestView,
    stream: bool,
) -> Result<UpstreamCallView, DispatchErrorView> {
    match resolve_outcome(entries, request.model_id) {
        Err(RegistryError::NotLoaded) => Err(
            DispatchErrorView::NotLoaded { model_id: request.model_id },
        ),
        Err(_) => Err(DispatchErrorView::NotFound { model_id: request.model_id }),
        Ok(entry) => call_for(
            entry.inference,
            environment.base_url_of(entry.inference),
            entry.id,
            request.prompt,
            request.max_tokens,
            stream,
            environment.credential_of(entry.inference),
        ),
    }
}

/// Decides what goes to which backend for `request`.
fn plan(
    state: &AppState,
    request: &InferenceRequest,
    environment: &BackendEnvironment,
    stream: bool,
) -> (result: Result<UpstreamCall, DispatchError>)
    ensures
        call_result_view(result) == dispatch_plan(state@, *environment, request@, stream),
{
    match state.resolve_loaded(request.model_id.as_str()) {
        Err(RegistryError::NotLoaded) => Err(
            DispatchError::NotLoaded { model_id: request.model_id.clone() },
        ),
        Err(_) => Err(DispatchError::NotFound { model_id: request.model_id.clone() }),
        Ok(entry) => {
            let base_url = get_backend_url(&entry.inference, environment.url(entry.inference));
            plan_call(
                entry.inference,
                base_url.as_str(),
                entry.id.as_str(),
                request.prompt.as_str(),
                request.max_tokens,
                stream,
                environment.credential(entry.inference),
            )
        },
    }
}

/// Begins a generation without streaming: decides what goes to which
/// backend, or why nothing goes.
pub fn inference_complete(
    state: &AppState,
    request: &InferenceRequest,
    environment: &BackendEnvironment,
) -> (result: Result<UpstreamCall, DispatchError>)
    ensures
        call_result_view(result) == dispatch_plan(state@, *environment, request@, false),
{
    plan(state, request, environment, false)
}

/// The canonical result for what the backend generated: the finish reason is
/// always `stop`.
pub open spec fn response_for(model_id: Seq<char>, completion: CompletionView) -> InferenceResponseView {
    InferenceResponseView {
        model_id,
        text: completion.text,
        tokens_generated: completion.tokens,
        finish_reason: "stop"@,
    }
}

/// The canonical result of a generation whose exchange with `backend` went
/// as `outcome` says, or the failure that the exchange amounts to.
pub open spec fn inference_result(
    backend: InferenceBackend,
    model_id: Seq<char>,
    outcome: UpstreamOutcomeView,
) -> Result<InferenceResponseView, DispatchErrorView> {
    match reply_of(backend, outcome) {
        Ok(completion) => Ok(response_for(model_id, completion)),
        Err(error) => Err(error),
    }
}

/// The view of a canonical result or an error.
pub open spec fn response_result_view(result: Result<InferenceResponse, DispatchError>) -> Result<
    InferenceResponseView,
    DispatchErrorView,
> {
    match result {
        Ok(response) => Ok(response@),
        Err(error) => Err(error@),
    }
}

/// Ends a generation without streaming: turns the exchange with the backend
/// into the canonical result.
pub fn finish_inference(backend: InferenceBackend, model_id: &str, outcome: &UpstreamOutcome) -> (result:
    Result<InferenceResponse, DispatchError>)
    ensures
        response_result_view(result) == inference_result(backend, model_id@, outcome@),
{
    match read_reply(backend, outcome) {
        Ok(completion) => Ok(
            InferenceResponse {
                model_id: model_id.to_owned(),
                text: completion.text,
                tokens_generated: completion.tokens,
                finish_reason: "stop".to_owned(),
            },
        ),
        Err(error) => Err(error),
    }
}

/// A stream that can begin: the request that opens it and the normalizer for
/// what comes back.
#[derive(Debug, PartialEq, Eq)]
pub struct StreamPlan {
    pub call: UpstreamCall,
    pub normalizer: StreamNormalizer,
}

/// Begins a streaming generation: decides what goes to which backend and sets
/// up the normalizer of the answer, or says why nothing goes.
pub fn inference_stream(
    state: &AppState,
    request: &InferenceRequest,
    environment: &BackendEnvironment,
) -> (result: Result<StreamPlan, DispatchError>)
    ensures
        match result {
            Ok(stream) => {
                &&& dispatch_plan(state@, *environment, request@, true) == Ok::<
                    UpstreamCallView,
                    DispatchErrorView,
                >(stream.call@)
                &&& stream_format_of(stream.call.backend) == Some(stream.normalizer@.format)
                &&& stream.normalizer@ == StreamState::start(stream.normalizer@.format)
            },
            Err(error) => dispatch_plan(state@, *environment, request@, true) == Err::<
                UpstreamCallView,
                DispatchErrorView,
            >(error@),
        },
{
    match plan(state, request, environment, true) {
        Err(error) => Err(error),
        Ok(call) => match stream_format(call.backend) {
            Some(format) => Ok(StreamPlan { call, normalizer: StreamNormalizer::new(format) }),
            None => Err(DispatchError::UnsupportedOperation { backend: call.backend }),
        },
    }
}

/// A dispatch reaches a backend only for a loaded model: for a model that
/// was never registered it fails with `NotFound`, for a registered model that
/// is not loaded with `NotLoaded`, and in both cases no request is made.
pub proof fn lemma_dispatch_needs_loaded_model(
    entries: Seq<ModelEntryView>,
    environment: BackendEnvironment,
    request: InferenceRequestView,
    stream: bool,
)
    ensures
        (forall|i: int| 0 <= i < entries.len() ==> (#[trigger] entries[i]).id != request.model_id)
            ==> dispatch_plan(entries, environment, request, stream) == Err::<
            UpstreamCallView,
            DispatchErrorView,
        >(DispatchErrorView::NotFound { model_id: request.model_id }),
        forall|i: int|
            0 <= i < entries.len() && (#[trigger] entries[i]).id == request.model_id
                && !entries[i].loaded && (forall|k: int|
                0 <= k < i ==> (#[trigger] entries[k]).id != request.model_id) ==> dispatch_plan(
                entries,
                environment,
                request,
                stream,
            ) == Err::<UpstreamCallView, DispatchErrorView>(
                DispatchErrorView::NotLoaded { model_id: request.model_id },
            ),
        dispatch_plan(entries, environment, request, stream) is Ok ==> resolve_outcome(
            entries,
            request.model_id,
        ) is Ok,
{
    lemma_find_model(entries, request.model_id);
}

/// The tokens of a canonical result: for the chat-completion API the number
/// that the answer gives as `usage.completion_tokens`, for every other backend
/// the number of words of the text. The finish reason is `stop`.
pub proof fn lemma_tokens_generated(
    backend: InferenceBackend,
    model_id: Seq<char>,
    outcome: UpstreamOutcomeView,
)
    requires
        inference_result(backend, model_id, outcome) is Ok,
    ensures
        ({
            let response = inference_result(backend, model_id, outcome)->Ok_0;
            &&& response.model_id == model_id
            &&& response.finish_reason == "stop"@
            &&& backend != InferenceBackend::OpenAI ==> response.tokens_generated
                == words_of(response.text)
            &&& backend == InferenceBackend::OpenAI ==> {
                &&& outcome matches UpstreamOutcomeView::Answered { body, .. }
                &&& json_body(body) matches Ok(document)
                &&& document.member("usage"@).member("completion_tokens"@).as_u32() == Some(
                    response.tokens_generated,
                )
            }
        }),
{
}

} // verus!
