use llms_sdk::anthropic::{
    AntEffort, AntImagePart, AntMessage, AntMessagePart, AntMessageRole, AntRequest, AntResponse,
    AntTextPart, AntThinkingConfig, AntUsage, Base64ImageSource, ImageSource, URLImageSource,
    DEFAULT_MAX_TOKENS,
};
use llms_sdk::{
    ApiType, AudioPart, ImagePart, LLMRequest, LLMResponse, LLMUsage, Message, MessagePart,
    MessageRole, OutputFormat, ReasoningEffort, Schema, TextPart,
};

fn text_message(role: MessageRole, text: &str) -> Message {
    Message {
        role,
        content: vec![MessagePart::Text(TextPart {
            text: text.to_string(),
        })],
    }
}

fn request_with(messages: Vec<Message>) -> LLMRequest {
    LLMRequest {
        api_type: ApiType::Anthropic,
        base_url: Some("https://api.anthropic.com/v1".to_string()),
        api_key: "key".to_string(),
        model: "anthropic-model".to_string(),
        messages,
        max_output_tokens: None,
        temperature: None,
        top_p: None,
        reasoning_effort: None,
        prompt_cache_ttl: None,
        stream: false,
        output_format: None,
        tools: None,
        tool_choice: None,
        parallel_tool_calls: false,
    }
}

#[test]
fn ant_message_user_role_maps_to_user() {
    let msg = text_message(MessageRole::User, "hello");
    let ant = AntMessage::try_from_message(msg).unwrap();
    assert!(matches!(ant.role, AntMessageRole::User));
    assert_eq!(ant.content.len(), 1);
}

#[test]
fn ant_message_system_role_maps_to_system() {
    let msg = text_message(MessageRole::System, "sys");
    let ant = AntMessage::try_from_message(msg).unwrap();
    assert!(matches!(ant.role, AntMessageRole::System));
}

#[test]
fn ant_message_rejects_audio_part() {
    let msg = Message {
        role: MessageRole::User,
        content: vec![MessagePart::Audio(AudioPart {
            data: "data".to_string(),
            mime_type: "audio/wav".to_string(),
        })],
    };
    let result = AntMessage::try_from_message(msg);
    assert!(result.is_err());
}

#[test]
fn ant_message_part_roundtrip_text() {
    let _original = MessagePart::Text(TextPart {
        text: "roundtrip".to_string(),
    });
    let ant_part = AntMessagePart::Text(AntTextPart {
        part_type: "text".to_string(),
        text: "roundtrip".to_string(),
    });
    let back: MessagePart = MessagePart::from_ant_part(ant_part);
    assert!(matches!(
        back,
        MessagePart::Text(TextPart { text }) if text == "roundtrip"
    ));
}

#[test]
fn ant_message_part_roundtrip_image_base64() {
    let ant_part = AntMessagePart::Image(AntImagePart {
        part_type: "image".to_string(),
        source: ImageSource::Base64(Base64ImageSource {
            data: "abc".to_string(),
            media_type: "image/png".to_string(),
            source_type: "base64".to_string(),
        }),
    });
    let back: MessagePart = MessagePart::from_ant_part(ant_part);
    assert!(matches!(
        back,
        MessagePart::Image(ImagePart { data, is_base64: true, mime_type: Some(mt) })
            if data == "abc" && mt == "image/png"
    ));
}

#[test]
fn ant_message_part_roundtrip_image_url() {
    let ant_part = AntMessagePart::Image(AntImagePart {
        part_type: "image".to_string(),
        source: ImageSource::URL(URLImageSource {
            url: "https://example.com/img.png".to_string(),
            source_type: "url".to_string(),
        }),
    });
    let back: MessagePart = MessagePart::from_ant_part(ant_part);
    assert!(matches!(
        back,
        MessagePart::Image(ImagePart { data, is_base64: false, mime_type: None })
            if data == "https://example.com/img.png"
    ));
}

#[test]
fn ant_request_extracts_system_message() {
    let request = request_with(vec![
        text_message(MessageRole::System, "system prompt"),
        text_message(MessageRole::User, "hi"),
    ]);
    let ant_req = AntRequest::try_from_request(request).unwrap();
    assert_eq!(ant_req.system, Some("system prompt".to_string()));
    assert_eq!(ant_req.messages.len(), 1);
}

#[test]
fn ant_request_default_max_tokens_when_unset() {
    let request = request_with(vec![text_message(MessageRole::User, "hi")]);
    let ant_req = AntRequest::try_from_request(request).unwrap();
    assert_eq!(ant_req.max_tokens, DEFAULT_MAX_TOKENS);
}

#[test]
fn ant_request_disables_top_p_when_temperature_present() {
    let request = LLMRequest {
        max_output_tokens: Some(100),
        temperature: Some(0.7_f32.to_bits()),
        top_p: Some(0.9_f32.to_bits()),
        ..request_with(vec![text_message(MessageRole::User, "hi")])
    };
    let ant_req = AntRequest::try_from_request(request).unwrap();
    assert!(ant_req.top_p.is_none());
    assert_eq!(ant_req.temperature, Some(0.7_f32.to_bits()));
}

#[test]
fn ant_request_defaults_top_p_to_0_95() {
    let request = LLMRequest {
        max_output_tokens: Some(100),
        top_p: Some(0.9_f32.to_bits()),
        reasoning_effort: Some(ReasoningEffort::Medium),
        ..request_with(vec![text_message(MessageRole::User, "hi")])
    };
    let ant_req = AntRequest::try_from_request(request).unwrap();
    assert_eq!(ant_req.top_p, Some(0.95_f32.to_bits()));
}

#[test]
fn ant_request_defaults_temperature_to_1() {
    let request = LLMRequest {
        max_output_tokens: Some(100),
        temperature: Some(0.5_f32.to_bits()),
        reasoning_effort: Some(ReasoningEffort::Medium),
        ..request_with(vec![text_message(MessageRole::User, "hi")])
    };
    let ant_req = AntRequest::try_from_request(request).unwrap();
    assert_eq!(ant_req.temperature, Some(1_f32.to_bits()));
}

#[test]
fn ant_usage_conversion_maps_cache_tokens() {
    let usage = AntUsage {
        input_tokens: 10,
        cache_creation_input_tokens: 3,
        cache_read_input_tokens: 2,
        output_tokens: 5,
    };
    let llm_usage = LLMUsage::from_ant_usage(usage);
    assert_eq!(llm_usage.input_tokens, 10);
    assert_eq!(llm_usage.output_tokens, 5);
    assert_eq!(llm_usage.cache_read_tokens, Some(2));
    assert_eq!(llm_usage.cache_write_tokens, Some(3));
}

#[test]
fn ant_request_sets_cache_control_for_valid_ttl() {
    let request = LLMRequest {
        max_output_tokens: Some(100),
        prompt_cache_ttl: Some("5m".to_string()),
        ..request_with(vec![text_message(MessageRole::User, "hi")])
    };
    let ant_req = AntRequest::try_from_request(request).unwrap();
    let cache = ant_req.cache_control.unwrap();
    assert_eq!(cache.cache_type, "ephemeral");
    assert_eq!(cache.ttl, "5m");
}

#[test]
fn ant_request_rejects_invalid_cache_ttl() {
    let request = LLMRequest {
        max_output_tokens: Some(100),
        prompt_cache_ttl: Some("10s".to_string()),
        ..request_with(vec![text_message(MessageRole::User, "hi")])
    };
    assert!(AntRequest::try_from_request(request).is_err());
}

#[test]
fn ant_request_sets_effort_in_output_config() {
    let request = LLMRequest {
        max_output_tokens: Some(100),
        reasoning_effort: Some(ReasoningEffort::High),
        ..request_with(vec![text_message(MessageRole::User, "hi")])
    };
    let ant_req = AntRequest::try_from_request(request).unwrap();
    let output_config = ant_req.output_config.unwrap();
    assert!(matches!(output_config.effort, Some(AntEffort::High)));
}

#[test]
fn ant_request_output_format_sets_additional_properties_false() {
    let schema = Schema {
        json: r#"{"type":"object","properties":{"name":{"type":"string"}}}"#.to_string(),
    };
    let request = LLMRequest {
        max_output_tokens: Some(100),
        output_format: Some(OutputFormat {
            name: "test".to_string(),
            description: "test schema".to_string(),
            schema,
        }),
        ..request_with(vec![text_message(MessageRole::User, "hi")])
    };
    let ant_req = AntRequest::try_from_request(request).unwrap();
    let format = ant_req.output_config.unwrap().format.unwrap();
    assert_eq!(
        format.schema.entry_as_bool("additionalProperties").unwrap(),
        Some(false)
    );
}

#[test]
fn ant_request_output_format_keeps_additional_properties_false() {
    let schema = Schema {
        json: r#"{"type":"object","additionalProperties":false,"properties":{"name":{"type":"string"}}}"#
            .to_string(),
    };
    let request = LLMRequest {
        max_output_tokens: Some(100),
        output_format: Some(OutputFormat {
            name: "test".to_string(),
            description: "test schema".to_string(),
            schema,
        }),
        ..request_with(vec![text_message(MessageRole::User, "hi")])
    };
    let ant_req = AntRequest::try_from_request(request).unwrap();
    let format = ant_req.output_config.unwrap().format.unwrap();
    assert_eq!(
        format.schema.entry_as_bool("additionalProperties").unwrap(),
        Some(false)
    );
}

#[test]
fn ant_request_effort_enables_adaptive_thinking() {
    let request = LLMRequest {
        max_output_tokens: Some(100),
        reasoning_effort: Some(ReasoningEffort::Medium),
        ..request_with(vec![text_message(MessageRole::User, "hi")])
    };
    let ant_req = AntRequest::try_from_request(request).unwrap();
    assert!(matches!(
        ant_req.thinking,
        Some(AntThinkingConfig::Adaptive(_))
    ));
}

#[test]
fn ant_request_no_effort_disables_thinking() {
    let request = LLMRequest {
        max_output_tokens: Some(100),
        ..request_with(vec![text_message(MessageRole::User, "hi")])
    };
    let ant_req = AntRequest::try_from_request(request).unwrap();
    assert!(matches!(
        ant_req.thinking,
        Some(AntThinkingConfig::Disabled(_))
    ));
}

#[test]
fn ant_response_conversion_assembles_assistant_message() {
    let response = AntResponse {
        id: "msg_123".to_string(),
        content: vec![AntMessagePart::Text(AntTextPart {
            part_type: "text".to_string(),
            text: "hello".to_string(),
        })],
        usage: AntUsage {
            input_tokens: 2,
            cache_creation_input_tokens: 0,
            cache_read_input_tokens: 0,
            output_tokens: 1,
        },
    };
    let llm_response = LLMResponse::from_ant_response(response);
    assert_eq!(llm_response.id, "msg_123");
    assert_eq!(llm_response.created_at, None);
    assert_eq!(llm_response.message.role, MessageRole::Assistant);
    assert!(matches!(
        llm_response.message.content.first(),
        Some(MessagePart::Text(TextPart { text })) if text == "hello"
    ));
}
