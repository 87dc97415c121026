//! Default values of the gateway's settings.

use vstd::prelude::*;

verus! {

/// Address of the model server when none is configured.
pub fn default_ollama_url() -> (r: String)
    ensures
        r@ == "http://host.docker.internal:11434"@,
{
    String::from_str("http://host.docker.internal:11434")
}

/// Chat model used when none is configured.
pub fn default_ollama_chat_model() -> (r: String)
    ensures
        r@ == "gemini-3-flash-preview:cloud"@,
{
    String::from_str("gemini-3-flash-preview:cloud")
}

/// Embedding model used when none is configured.
pub fn default_ollama_embedding_model() -> (r: String)
    ensures
        r@ == "nomic-embed-text"@,
{
    String::from_str("nomic-embed-text")
}

/// Token budget of one generation when none is configured.
pub fn default_max_tokens() -> (r: u32)
    ensures
        r == 2048,
{
    2048
}

} // verus!
