use openllm_engine::adapters::{
    BackendEnvironment, DispatchError, UpstreamBody, UpstreamCall, UpstreamOutcome,
};
use openllm_engine::backend::StreamFormat;
use openllm_engine::inference::{finish_inference, StreamPlan};
use openllm_engine::registry::Timestamp;
use openllm_engine::stream::{admit_stream, describe_stream_fault, StreamFault};
use openllm_engine::{
    default_max_tokens, inference_complete, inference_stream, load_model, register_model,
    AppState, InferenceBackend, InferenceRequest, InferenceResponse, LoadModelRequest,
    RegisterModelRequest, StreamToken,
};

fn environment() -> BackendEnvironment {
    BackendEnvironment {
        ollama_url: None,
        llama_cpp_url: None,
        huggingface_url: None,
        openai_url: None,
        huggingface_token: None,
        openai_api_key: None,
    }
}

fn register(state: &mut AppState, id: &str, inference: InferenceBackend) {
    let request = RegisterModelRequest {
        id: id.to_string(),
        name: id.to_string(),
        inference,
        context: 2048,
        quant: None,
        capabilities: vec![],
        latency: None,
        size_bytes: 1,
    };
    assert!(state.register(&request).is_ok());
}

fn loaded(id: &str, inference: InferenceBackend) -> AppState {
    let mut state = AppState::new();
    register(&mut state, "other", InferenceBackend::Ollama);
    register(&mut state, id, inference);
    state.load_at(id, Timestamp { seconds: 1, nanoseconds: 2 }).unwrap();
    state
}

fn request(id: &str, prompt: &str, max_tokens: u32) -> InferenceRequest {
    InferenceRequest { model_id: id.to_string(), prompt: prompt.to_string(), max_tokens }
}

#[test]
fn default_budget_is_512_tokens() {
    assert_eq!(default_max_tokens(), 512);
}

#[test]
fn dispatch_to_an_unknown_model_is_not_found() {
    let state = loaded("m1", InferenceBackend::Ollama);
    let asked = request("ghost", "hi", 5);
    for result in [
        inference_complete(&state, &asked, &environment()).map(|_| ()),
        inference_stream(&state, &asked, &environment()).map(|_| ()),
    ] {
        let error = result.unwrap_err();
        assert_eq!(error, DispatchError::NotFound { model_id: "ghost".to_string() });
        assert_eq!(error.status(), 404);
        assert_eq!(
            error.message(),
            "Model 'ghost' not found or not loaded. Please register and load it first."
        );
    }
}

#[test]
fn dispatch_to_an_unloaded_model_is_not_loaded() {
    let mut state = AppState::new();
    register(&mut state, "m1", InferenceBackend::OpenAI);
    let asked = request("m1", "hi", 5);
    for result in [
        inference_complete(&state, &asked, &environment()).map(|_| ()),
        inference_stream(&state, &asked, &environment()).map(|_| ()),
    ] {
        let error = result.unwrap_err();
        assert_eq!(error, DispatchError::NotLoaded { model_id: "m1".to_string() });
        assert_eq!(error.status(), 412);
        assert_eq!(error.message(), "Model 'm1' is not loaded. Load it first.");
    }
    state.load("m1").unwrap();
    state.unload("m1").unwrap();
    assert_eq!(
        inference_complete(&state, &asked, &environment()),
        Err(DispatchError::NotLoaded { model_id: "m1".to_string() })
    );
}

#[test]
fn dispatch_selects_the_adapter_of_the_backend() {
    let state = loaded("m1", InferenceBackend::Ollama);
    let call = inference_complete(&state, &request("m1", "why?", 33), &environment()).unwrap();
    assert_eq!(
        call,
        UpstreamCall {
            backend: InferenceBackend::Ollama,
            url: "http://localhost:11434/api/generate".to_string(),
            bearer: None,
            body: UpstreamBody::Generate {
                model: "m1".to_string(),
                prompt: "why?".to_string(),
                stream: false,
                num_predict: 33,
            },
        }
    );
    let state = loaded("m2", InferenceBackend::Llama);
    let call = inference_complete(&state, &request("m2", "why?", 33), &environment()).unwrap();
    assert_eq!(call.backend, InferenceBackend::Llama);
    assert_eq!(call.url, "http://localhost:8080/v1/completions");
    assert_eq!(
        call.body,
        UpstreamBody::Completion { prompt: "why?".to_string(), n_predict: 33, stream: false }
    );
}

#[test]
fn dispatch_uses_the_environment() {
    let mut settings = environment();
    settings.openai_url = Some("http://stub:9000/v1".to_string());
    settings.openai_api_key = Some("sk-test".to_string());
    settings.huggingface_url = Some("http://hf".to_string());
    settings.huggingface_token = Some("hf-test".to_string());
    let state = loaded("m1", InferenceBackend::OpenAI);
    let call = inference_complete(&state, &request("m1", "hi", 5), &settings).unwrap();
    assert_eq!(call.url, "http://stub:9000/v1/chat/completions");
    assert_eq!(call.bearer, Some("sk-test".to_string()));
    let state = loaded("org/m", InferenceBackend::HuggingFace);
    let call = inference_complete(&state, &request("org/m", "hi", 5), &settings).unwrap();
    assert_eq!(call.url, "http://hf/models/org/m");
    assert_eq!(call.bearer, Some("hf-test".to_string()));
}

#[test]
fn dispatch_without_a_credential_is_a_configuration_error() {
    let state = loaded("m1", InferenceBackend::HuggingFace);
    let error = inference_complete(&state, &request("m1", "hi", 5), &environment()).unwrap_err();
    assert_eq!(error, DispatchError::ConfigurationError { backend: InferenceBackend::HuggingFace });
    let state = loaded("m1", InferenceBackend::OpenAI);
    let error = inference_complete(&state, &request("m1", "hi", 5), &environment()).unwrap_err();
    assert_eq!(error, DispatchError::ConfigurationError { backend: InferenceBackend::OpenAI });
}

#[test]
fn streaming_from_hosted_inference_is_unsupported() {
    let mut settings = environment();
    settings.huggingface_token = Some("hf-test".to_string());
    let state = loaded("m1", InferenceBackend::HuggingFace);
    let error = inference_stream(&state, &request("m1", "hi", 5), &settings).unwrap_err();
    assert_eq!(
        error,
        DispatchError::UnsupportedOperation { backend: InferenceBackend::HuggingFace }
    );
    assert_eq!(error.status(), 501);
    assert_eq!(error.message(), "Streaming not yet supported for HuggingFace backend");
}

#[test]
fn stream_plans_carry_a_fresh_normalizer() {
    let cases = [
        (InferenceBackend::Ollama, "http://localhost:11434/api/generate", None),
        (InferenceBackend::Llama, "http://localhost:8080/v1/completions", None),
        (InferenceBackend::OpenAI, "https://api.openai.com/v1/chat/completions", Some("")),
    ];
    for (backend, url, bearer) in cases {
        let state = loaded("m1", backend);
        let StreamPlan { call, normalizer } =
            inference_stream(&state, &request("m1", "hi", 5), &environment()).unwrap();
        assert_eq!(call.backend, backend);
        assert_eq!(call.url, url);
        assert_eq!(call.bearer, bearer.map(|b: &str| b.to_string()));
        assert!(!normalizer.is_finished());
        assert_eq!(normalizer.next_token_id(), 0);
        assert_eq!(normalizer.pending(), b"");
    }
    let state = loaded("m1", InferenceBackend::OpenAI);
    let plan = inference_stream(&state, &request("m1", "hi", 5), &environment()).unwrap();
    assert_eq!(
        plan.call.body,
        UpstreamBody::Chat {
            model: "m1".to_string(),
            content: "hi".to_string(),
            max_tokens: 5,
            stream: true,
        }
    );
    let mut normalizer = plan.normalizer;
    let tokens = normalizer.push_chunk(
        b"data: {\"choices\":[{\"delta\":{\"content\":\"yo\"},\"finish_reason\":null}]}\n\ndata: [DONE]\n",
    );
    assert_eq!(tokens, vec![StreamToken { token: "yo".to_string(), token_id: 0, complete: false }]);
    assert!(normalizer.is_finished());
    let expected = openllm_engine::stream::StreamNormalizer::new(StreamFormat::ChatEvents);
    assert!(!expected.is_finished());
}

#[test]
fn chat_completion_end_to_end() {
    let mut state = AppState::new();
    let registration = RegisterModelRequest {
        id: "m1".to_string(),
        name: "m1".to_string(),
        inference: InferenceBackend::OpenAI,
        context: 8192,
        quant: None,
        capabilities: vec![openllm_engine::ModelCapability::Chat],
        latency: None,
        size_bytes: openllm_engine::default_size_bytes(),
    };
    assert_eq!(register_model(&mut state, registration).0, 201);
    assert_eq!(load_model(&mut state, LoadModelRequest { model_id: "m1".to_string() }).0, 200);

    let mut settings = environment();
    settings.openai_url = Some("http://stub".to_string());
    settings.openai_api_key = Some("key".to_string());
    let asked = request("m1", "hi", 5);
    let call = inference_complete(&state, &asked, &settings).unwrap();
    assert_eq!(
        call,
        UpstreamCall {
            backend: InferenceBackend::OpenAI,
            url: "http://stub/chat/completions".to_string(),
            bearer: Some("key".to_string()),
            body: UpstreamBody::Chat {
                model: "m1".to_string(),
                content: "hi".to_string(),
                max_tokens: 5,
                stream: false,
            },
        }
    );
    let outcome = UpstreamOutcome::Answered {
        status: 200,
        status_text: "200 OK".to_string(),
        body: br#"{"choices":[{"message":{"content":"hello there"},"finish_reason":"stop"}],"usage":{"completion_tokens":2}}"#.to_vec(),
    };
    assert_eq!(
        finish_inference(call.backend, &asked.model_id, &outcome),
        Ok(InferenceResponse {
            model_id: "m1".to_string(),
            text: "hello there".to_string(),
            tokens_generated: 2,
            finish_reason: "stop".to_string(),
        })
    );
}

#[test]
fn finish_reason_is_always_stop() {
    let outcome = UpstreamOutcome::Answered {
        status: 200,
        status_text: "200 OK".to_string(),
        body: br#"{"choices":[{"text":"cut off here","finish_reason":"length"}]}"#.to_vec(),
    };
    assert_eq!(
        finish_inference(InferenceBackend::Llama, "m", &outcome),
        Ok(InferenceResponse {
            model_id: "m".to_string(),
            text: "cut off here".to_string(),
            tokens_generated: 3,
            finish_reason: "stop".to_string(),
        })
    );
}

#[test]
fn upstream_failures_become_bad_gateway() {
    let outcome = UpstreamOutcome::Answered {
        status: 503,
        status_text: "503 Service Unavailable".to_string(),
        body: Vec::new(),
    };
    let error = finish_inference(InferenceBackend::Ollama, "m", &outcome).unwrap_err();
    assert_eq!(error.status(), 502);
    assert_eq!(error.message(), "Ollama API error: 503 Service Unavailable");
    let error = finish_inference(InferenceBackend::OpenAI, "m", &outcome).unwrap_err();
    assert_eq!(error.message(), "OpenAI API error: 503 Service Unavailable - ");
}

#[test]
fn stream_faults_are_described() {
    let unsent = StreamFault::SendFailed { detail: "refused".to_string() };
    let refused = StreamFault::Rejected { status_text: "404 Not Found".to_string() };
    let unread = StreamFault::ReadFailed { detail: "reset".to_string() };
    assert_eq!(
        describe_stream_fault(InferenceBackend::Ollama, &unsent),
        "Ollama stream failed: refused"
    );
    assert_eq!(
        describe_stream_fault(InferenceBackend::Llama, &refused),
        "llama.cpp API error: 404 Not Found"
    );
    assert_eq!(describe_stream_fault(InferenceBackend::OpenAI, &unread), "OpenAI read error: reset");
    assert_eq!(
        describe_stream_fault(InferenceBackend::OpenAI, &refused),
        "OpenAI API error: 404 Not Found"
    );
}

#[test]
fn streams_open_on_success_only() {
    assert_eq!(admit_stream(200, "200 OK"), Ok(()));
    assert_eq!(admit_stream(299, "299"), Ok(()));
    assert_eq!(
        admit_stream(500, "500 Internal Server Error"),
        Err(StreamFault::Rejected { status_text: "500 Internal Server Error".to_string() })
    );
    assert_eq!(
        admit_stream(301, "301 Moved Permanently"),
        Err(StreamFault::Rejected { status_text: "301 Moved Permanently".to_string() })
    );
}
