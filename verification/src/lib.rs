//! Moagan: the decision layer of a multi-provider LLM client.

pub mod api_keys;
pub mod backoff;
pub mod call_laws;
pub mod capabilities;
pub mod circuit_breaker;
pub mod clock;
pub mod config;
pub mod detection;
pub mod detection_laws;
pub mod endpoints;
pub mod error;
pub mod fixtures;
pub mod json;
pub mod json_extractor;
pub mod json_grammar;
pub mod json_strategy;
pub mod max_tokens;
pub mod messages_wire;
pub mod minimax;
pub mod mock;
pub mod modal_gate;
pub mod models_dev;
pub mod openai_compat;
pub mod openai_compatible;
pub mod opencode_go;
pub mod opencode_go_anthropic;
pub mod opencode_go_responses;
pub mod param_laws;
pub mod param_rejections;
pub mod patterns;
pub mod plan_laws;
pub mod probe;
pub mod probe_laws;
pub mod probe_table;
pub mod prompt_cache;
pub mod provider;
pub mod responses_wire;
pub mod role;
pub mod sidecar;
pub mod sse;
pub mod text;
pub mod text_laws;
pub mod text_map;
pub mod transport;
pub mod wire;
