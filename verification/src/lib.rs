//! Unified interface to call OpenAI- and Anthropic-compatible LLM APIs.
//!
//! This crate holds the request and response model shared by both providers,
//! the conversions between that model and each provider's wire format, and the
//! state machine that assembles an Anthropic streaming response.

pub mod anthropic;
pub mod anthropic_stream;
pub mod encoding;
pub mod errors;
pub mod indexed;
pub mod json;
pub mod openai;
pub mod types;

pub use types::{
    allowed_audio_type, allowed_document_type, allowed_image_type, is_valid_json, ApiType,
    AudioPart, DocumentPart, ImagePart, LLMRequest, LLMRequestBuilder, LLMResponse,
    LLMStreamingComplete, LLMStreamingDelta, LLMStreamingResponse, LLMThinkingDelta,
    LLMToolDelta, LLMUsage, Message, MessagePart, MessageRole, OutputFormat, ReasoningEffort,
    RetryJitter, RetryPolicy, Schema, TextPart, ThinkingPart, Tool, ToolCallPart, ToolChoice,
    ToolResultPart, ALLOWED_AUDIO_TYPES, ALLOWED_DOCUMENT_TYPES, ALLOWED_IMAGE_TYPES,
    CHAT_COMPLETIONS_ENDPOINT, DEFAULT_ANTHROPIC_BASE_URL, DEFAULT_OPENAI_BASE_URL,
    MESSAGES_ENDPOINT,
};
