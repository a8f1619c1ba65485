//! A gateway in front of several inference backends: a registry of logical
//! models, the dispatch of a request to the backend of its model, and the
//! normalization of each backend's answers into one canonical form.

pub mod adapters;
pub mod backend;
pub mod health;
pub mod inference;
pub mod json;
pub mod models;
pub mod registry;
pub mod status;
pub mod stream;
pub mod text;

pub use backend::InferenceBackend;
pub use health::{health_check, HealthResponse};
pub use inference::{
    default_max_tokens, inference_complete, inference_stream, InferenceRequest, InferenceResponse,
};
pub use models::{
    default_size_bytes, list_models, load_model, register_model, unload_model, LoadModelRequest,
    LoadModelResponse, ModelListResponse, RegisterModelResponse, UnloadModelResponse,
};
pub use registry::{
    AppState, LatencyProfile, LoadedModel, ModelCapability, ModelRegistryEntry,
    RegisterModelRequest,
};
pub use stream::StreamToken;
