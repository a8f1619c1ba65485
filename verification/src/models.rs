//! The registry as the HTTP interface offers it: each operation answers with a
//! status code and a body.

use vstd::prelude::*;

use crate::registry::{
    entries_view, load_outcome, register_outcome, unload_outcome, utc_now, AppState,
    ModelEntryView, ModelRegistryEntry, RegisterModelRequest, RegistryError, Timestamp,
};
use crate::status::{CONFLICT, CREATED, NOT_FOUND, OK};

verus! {

/// Size of a model whose registration names none.
pub fn default_size_bytes() -> (n: u64)
    ensures
        n == 4_000_000_000,
{
    4_000_000_000
}

/// The body of the answer to a listing.
#[derive(Debug, PartialEq, Eq)]
pub struct ModelListResponse {
    pub models: Vec<ModelRegistryEntry>,
}

/// The body of the answer to a registration.
#[derive(Debug, PartialEq, Eq)]
pub struct RegisterModelResponse {
    pub success: bool,
    pub model: ModelRegistryEntry,
    pub message: String,
}

/// What a client gives to load a model.
#[derive(Debug, PartialEq, Eq)]
pub struct LoadModelRequest {
    pub model_id: String,
}

/// The body of the answer to a loading.
#[derive(Debug, PartialEq, Eq)]
pub struct LoadModelResponse {
    pub success: bool,
    pub model_id: String,
    pub message: String,
}

/// The body of the answer to an unloading.
#[derive(Debug, PartialEq, Eq)]
pub struct UnloadModelResponse {
    pub success: bool,
    pub model_id: String,
    pub message: String,
}

/// The mathematical value of the answer to a loading or an unloading.
pub struct OutcomeView {
    pub success: bool,
    pub model_id: Seq<char>,
    pub message: Seq<char>,
}

impl View for LoadModelResponse {
    type V = OutcomeView;

    open spec fn view(&self) -> OutcomeView {
        OutcomeView { success: self.success, model_id: self.model_id@, message: self.message@ }
    }
}

impl View for UnloadModelResponse {
    type V = OutcomeView;

    open spec fn view(&self) -> OutcomeView {
        OutcomeView { success: self.success, model_id: self.model_id@, message: self.message@ }
    }
}

/// The mathematical value of the answer to a registration.
pub struct RegisterReplyView {
    pub success: bool,
    pub model: ModelEntryView,
    pub message: Seq<char>,
}

impl View for RegisterModelResponse {
    type V = RegisterReplyView;

    open spec fn view(&self) -> RegisterReplyView {
        RegisterReplyView { success: self.success, model: self.model@, message: self.message@ }
    }
}

/// The answer to a registration that the registry decided as `result`: 201 for
/// a new model and 409 for a conflict, each with the requested entry, not loaded.
pub open spec fn register_reply(
    result: Result<ModelEntryView, RegistryError>,
    requested: ModelEntryView,
) -> (u16, RegisterReplyView) {
    match result {
        Ok(_) => (
            CREATED,
            RegisterReplyView {
                success: true,
                model: requested.unloaded(),
                message: "Model registered successfully"@,
            },
        ),
        Err(_) => (
            CONFLICT,
            RegisterReplyView {
                success: false,
                model: requested.unloaded(),
                message: "Model with this ID already registered"@,
            },
        ),
    }
}

/// The answer to a loading that the registry decided as `result`: 200 for a
/// model now loaded, 409 for one loaded already and 404 for an unknown one.
pub open spec fn load_reply(result: Result<(), RegistryError>, id: Seq<char>) -> (u16, OutcomeView) {
    match result {
        Ok(_) => (
            OK,
            OutcomeView { success: true, model_id: id, message: "Model loaded successfully"@ },
        ),
        Err(RegistryError::AlreadyLoaded) => (
            CONFLICT,
            OutcomeView { success: false, model_id: id, message: "Model already loaded"@ },
        ),
        Err(_) => (
            NOT_FOUND,
            OutcomeView { success: false, model_id: id, message: "Model not found in registry"@ },
        ),
    }
}

/// The answer to an unloading that the registry decided as `result`: 200 for a
/// registered model and 404 for an unknown one.
pub open spec fn unload_reply(result: Result<(), RegistryError>, id: Seq<char>) -> (
    u16,
    OutcomeView,
) {
    match result {
        Ok(_) => (
            OK,
            OutcomeView { success: true, model_id: id, message: "Model unloaded successfully"@ },
        ),
        Err(_) => (
            NOT_FOUND,
            OutcomeView { success: false, model_id: id, message: "Model not found in registry"@ },
        ),
    }
}

/// Lists the registered models, in the order of their registration.
pub fn list_models(state: &AppState) -> (reply: (u16, ModelListResponse))
    ensures
        reply.0 == OK,
        entries_view(reply.1.models@) == state@,
{
    (OK, ModelListResponse { models: state.list() })
}

/// Registers a model and answers 201 with the new entry, or answers 409 and
/// leaves the registry as it is where the id is registered already.
pub fn register_model(state: &mut AppState, request: RegisterModelRequest) -> (reply: (
    u16,
    RegisterModelResponse,
))
    ensures
        ({
            let (registered, result) = register_outcome(old(state)@, request@);
            &&& final(state)@ == registered
            &&& (reply.0, reply.1@) == register_reply(result, request@)
        }),
        reply.0 == CONFLICT ==> *final(state) == *old(state),
        old(state).wf() ==> final(state).wf(),
{
    match state.register(&request) {
        Ok(entry) => (
            CREATED,
            RegisterModelResponse {
                success: true,
                model: entry,
                message: "Model registered successfully".to_owned(),
            },
        ),
        Err(_) => (
            CONFLICT,
            RegisterModelResponse {
                success: false,
                model: request.to_entry(),
                message: "Model with this ID already registered".to_owned(),
            },
        ),
    }
}

/// Builds the answer to a loading.
fn answer_load(result: Result<(), RegistryError>, model_id: String) -> (reply: (
    u16,
    LoadModelResponse,
))
    ensures
        (reply.0, reply.1@) == load_reply(result, model_id@),
{
    match result {
        Ok(_) => (
            OK,
            LoadModelResponse {
                success: true,
                model_id,
                message: "Model loaded successfully".to_owned(),
            },
        ),
        Err(RegistryError::AlreadyLoaded) => (
            CONFLICT,
            LoadModelResponse {
                success: false,
                model_id,
                message: "Model already loaded".to_owned(),
            },
        ),
        Err(_) => (
            NOT_FOUND,
            LoadModelResponse {
                success: false,
                model_id,
                message: "Model not found in registry".to_owned(),
            },
        ),
    }
}

/// Loads a model at the time `now` and answers 200, or answers 409 for a model
/// that is loaded already and 404 for an unknown one.
pub fn load_model_at(state: &mut AppState, request: LoadModelRequest, now: Timestamp) -> (reply: (
    u16,
    LoadModelResponse,
))
    ensures
        ({
            let (loaded, result) = load_outcome(old(state)@, request.model_id@, now);
            &&& final(state)@ == loaded
            &&& (reply.0, reply.1@) == load_reply(result, request.model_id@)
        }),
        reply.0 != OK ==> *final(state) == *old(state),
        old(state).wf() ==> final(state).wf(),
{
    let result = state.load_at(request.model_id.as_str(), now);
    answer_load(result, request.model_id)
}

/// Loads a model now and answers 200, or answers 409 for a model that is
/// loaded already and 404 for an unknown one.
pub fn load_model(state: &mut AppState, request: LoadModelRequest) -> (reply: (
    u16,
    LoadModelResponse,
))
    ensures
        exists|now: Timestamp|
            {
                let (loaded, result) = #[trigger] load_outcome(
                    old(state)@,
                    request.model_id@,
                    now,
                );
                &&& final(state)@ == loaded
                &&& (reply.0, reply.1@) == load_reply(result, request.model_id@)
            },
        reply.0 != OK ==> *final(state) == *old(state),
        old(state).wf() ==> final(state).wf(),
{
    let now = utc_now();
    load_model_at(state, request, now)
}

/// Unloads a model and answers 200, also where it was not loaded, or answers
/// 404 for an unknown one.
pub fn unload_model(state: &mut AppState, model_id: String) -> (reply: (u16, UnloadModelResponse))
    ensures
        ({
            let (unloaded, result) = unload_outcome(old(state)@, model_id@);
            &&& final(state)@ == unloaded
            &&& (reply.0, reply.1@) == unload_reply(result, model_id@)
        }),
        reply.0 != OK ==> *final(state) == *old(state),
        old(state).wf() ==> final(state).wf(),
{
    match state.unload(model_id.as_str()) {
        Ok(_) => (
            OK,
            UnloadModelResponse {
                success: true,
                model_id,
                message: "Model unloaded successfully".to_owned(),
            },
        ),
        Err(_) => (
            NOT_FOUND,
            UnloadModelResponse {
                success: false,
                model_id,
                message: "Model not found in registry".to_owned(),
            },
        ),
    }
}

} // verus!
