//! Defensive layer for a conversational-agent gateway: scoring and
//! sanitising untrusted text before it reaches a language model, and
//! tracking per-identity strikes, rate limits and temporary blocks.

pub mod catalog;
pub mod config;
pub mod marker_laws;
pub mod prompt;
pub mod sanitizer;
pub mod sanitizer_laws;
pub mod text;
pub mod tracker;
pub mod tracker_laws;

pub use config::{
    default_max_tokens, default_ollama_chat_model, default_ollama_embedding_model,
    default_ollama_url,
};
pub use prompt::build_safe_prompt;
pub use sanitizer::{
    log_injection_attempt, sanitize_external_content, sanitize_user_input, should_flag_message,
    validate_persona_prompt, SanitizationResult,
};
pub use tracker::{
    RateLimitReason, SecurityCheckResult, SecurityConfig, SecurityTracker, UserSecurityRecord,
};
