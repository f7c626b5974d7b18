//! Per-provider protocol-adapter configuration: base URL, auth header,
//! request path, SSE terminator, and the two field paths that locate the
//! streamed delta text and the full completion text.

use vstd::prelude::*;

verus! {

/// Read-only per-provider configuration, shared by all workers.
pub struct BaseLLMConfig {
    pub api_base: String,
    /// Header name and value prefix, joined as `name: prefix`.
    pub api_key_header: String,
    pub model_path: String,
    /// The terminator line that ends a streamed response.
    pub stream_marker: String,
    /// Field path to the streamed delta text, one element per segment.
    pub stream_field_path: Vec<String>,
    /// Field path to the full completion text.
    pub content_field_path: Vec<String>,
}

impl Default for BaseLLMConfig {
    /// The OpenAI-compatible defaults: chat completions under the public
    /// API base, deltas at `choices[0].delta.content`, completions at
    /// `choices[0].message.content`.
    fn default() -> (r: BaseLLMConfig)
        ensures
            r.api_base@ == "https://api.openai.com"@,
            r.api_key_header@ == "Authorization: Bearer"@,
            r.model_path@ == "/v1/chat/completions"@,
            r.stream_marker@ == "data: [DONE]"@,
            r.stream_field_path@.len() == 4,
            r.stream_field_path@[0]@ == "choices"@,
            r.stream_field_path@[1]@ == "0"@,
            r.stream_field_path@[2]@ == "delta"@,
            r.stream_field_path@[3]@ == "content"@,
            r.content_field_path@.len() == 4,
            r.content_field_path@[0]@ == "choices"@,
            r.content_field_path@[1]@ == "0"@,
            r.content_field_path@[2]@ == "message"@,
            r.content_field_path@[3]@ == "content"@,
    {
        let mut stream_field_path: Vec<String> = Vec::new();
        stream_field_path.push("choices".to_owned());
        stream_field_path.push("0".to_owned());
        stream_field_path.push("delta".to_owned());
        stream_field_path.push("content".to_owned());
        let mut content_field_path: Vec<String> = Vec::new();
        content_field_path.push("choices".to_owned());
        content_field_path.push("0".to_owned());
        content_field_path.push("message".to_owned());
        content_field_path.push("content".to_owned());
        BaseLLMConfig {
            api_base: "https://api.openai.com".to_owned(),
            api_key_header: "Authorization: Bearer".to_owned(),
            model_path: "/v1/chat/completions".to_owned(),
            stream_marker: "data: [DONE]".to_owned(),
            stream_field_path,
            content_field_path,
        }
    }
}

} // verus!
